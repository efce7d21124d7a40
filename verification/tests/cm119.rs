//! CM119 mixer path discovery over a simulated ALSA.
use rptadv_portaudio_alsa_adapter::abi::{
    ABI_VERSION, AUDIO_ALSA_ERROR, AUDIO_INVALID_ARGUMENT, AUDIO_OK, AUDIO_UNSUPPORTED,
};
use rptadv_portaudio_alsa_adapter::cm119::{
    append_cm119_mixer_path, classify_cm119_mixer, Cm119Call, Cm119MixerPath,
    Cm119MixerPathSource, Cm119MixerPaths, Cm119Resolve, MixerElement,
    CM119_MIXER_ELEMENT_NAME_CAPACITY, CM119_MIXER_PATHS_SIZE, CM119_MIXER_PATH_CAPACITY,
    CM119_MIXER_PATH_SWITCH, CM119_MIXER_PATH_VOLUME,
};
use rptadv_portaudio_alsa_adapter::mixer::{MixerChannel, MixerDirection};
use rptadv_portaudio_alsa_adapter::sysfs::SoundEntry;
use rptadv_portaudio_alsa_adapter::text::CText;

#[derive(Clone, Copy)]
struct Capabilities {
    capture_volume: bool,
    playback_volume: bool,
    capture_switch: bool,
    playback_switch: bool,
    capture_channels: [bool; 2],
    playback_channels: [bool; 2],
}

#[derive(Clone)]
struct Element {
    active: bool,
    name: Option<String>,
    capabilities: Capabilities,
}

fn element(name: &str, capabilities: Capabilities) -> Element {
    Element { active: true, name: Some(name.to_string()), capabilities }
}

fn mixer_element(name: &str, capture: bool, playback: bool) -> Element {
    element(
        name,
        Capabilities {
            capture_volume: capture,
            playback_volume: playback,
            capture_switch: capture,
            playback_switch: playback,
            capture_channels: [capture, false],
            playback_channels: [playback, false],
        },
    )
}

fn elements(inventory: &[Element]) -> Vec<MixerElement> {
    inventory
        .iter()
        .map(|element| MixerElement {
            active: element.active,
            name: element.name.as_ref().map(|name| name.as_bytes().to_vec()),
            index: 0,
            capture_volume: element.capabilities.capture_volume,
            playback_volume: element.capabilities.playback_volume,
            capture_switch: element.capabilities.capture_switch,
            playback_switch: element.capabilities.playback_switch,
            capture_left: element.capabilities.capture_channels[0],
            capture_right: element.capabilities.capture_channels[1],
            playback_left: element.capabilities.playback_channels[0],
            playback_right: element.capabilities.playback_channels[1],
        })
        .collect()
}

fn card(card_index: u32, usb_interface_path: &str) -> SoundEntry {
    let card = format!("card{card_index}");
    let path = ["/", "sys", "devices", usb_interface_path, "sound", &card];
    SoundEntry {
        device_path: Some(path.iter().map(|part| Some(part.to_string())).collect()),
        name: Some(card),
        serial_text: None,
    }
}

struct Alsa {
    listing: Vec<SoundEntry>,
    inventory: Vec<Element>,
    open_result: i32,
    attach_result: i32,
    register_result: i32,
    load_result: i32,
    open_count: u32,
    attach_count: u32,
    register_count: u32,
    load_count: u32,
    close_count: u32,
    attached_card: Vec<u8>,
}

fn alsa(listing: Vec<SoundEntry>, inventory: Vec<Element>) -> Alsa {
    Alsa {
        listing,
        inventory,
        open_result: 0,
        attach_result: 0,
        register_result: 0,
        load_result: 0,
        open_count: 0,
        attach_count: 0,
        register_count: 0,
        load_count: 0,
        close_count: 0,
        attached_card: Vec::new(),
    }
}

impl Alsa {
    fn resolve(&mut self, usb_interface_path: CText<'_>, paths: &mut Cm119MixerPaths) -> i32 {
        let mut resolve = match Cm119Resolve::begin(usb_interface_path, paths) {
            Ok(resolve) => resolve,
            Err(error) => return error,
        };
        while let Some(call) = resolve.call() {
            let code = match call {
                Cm119Call::ReadListing => {
                    resolve.listing(Some(&self.listing));
                    continue;
                }
                Cm119Call::ReadElements => {
                    resolve.elements(&elements(&self.inventory), paths);
                    continue;
                }
                Cm119Call::Open => {
                    self.open_count += 1;
                    self.open_result
                }
                Cm119Call::Attach => {
                    self.attach_count += 1;
                    self.attached_card = resolve.card.clone();
                    self.attach_result
                }
                Cm119Call::Register => {
                    self.register_count += 1;
                    self.register_result
                }
                Cm119Call::Load => {
                    self.load_count += 1;
                    self.load_result
                }
                Cm119Call::Close => {
                    self.close_count += 1;
                    0
                }
            };
            resolve.reply(code);
        }
        resolve.status
    }
}

fn empty_paths() -> Cm119MixerPaths {
    Cm119MixerPaths::cleared(CM119_MIXER_PATHS_SIZE)
}

fn path_element(path: &Cm119MixerPath) -> &str {
    let length = path.element.iter().position(|byte| *byte == 0).expect("terminated name");
    std::str::from_utf8(&path.element[..length]).expect("test mixer element is UTF-8")
}

fn assert_unpublished(paths: &Cm119MixerPaths) {
    assert_eq!(paths.struct_size, CM119_MIXER_PATHS_SIZE);
    assert_eq!(paths.abi_version, 0);
    assert_eq!(paths.rx_capture_path_count, 0);
    assert_eq!(paths.tx_playback_path_count, 0);
    assert_eq!(paths.sidetone_path_count, 0);
    assert_eq!(paths.rx_compatibility_switch_path_count, 0);
}

#[test]
fn cm119_mixer_resolver_discovers_legacy_rx_tx_and_compatibility_paths() {
    let mut alsa = alsa(
        vec![card(4, "3-1:1.0")],
        vec![
            element(
                "Mic",
                Capabilities {
                    capture_volume: true,
                    playback_volume: true,
                    capture_switch: true,
                    playback_switch: true,
                    capture_channels: [true, false],
                    playback_channels: [true, false],
                },
            ),
            element(
                "Speaker",
                Capabilities {
                    capture_volume: false,
                    playback_volume: true,
                    capture_switch: false,
                    playback_switch: true,
                    capture_channels: [false, false],
                    playback_channels: [true, true],
                },
            ),
            element(
                "Unused Playback",
                Capabilities {
                    capture_volume: false,
                    playback_volume: true,
                    capture_switch: false,
                    playback_switch: true,
                    capture_channels: [false, false],
                    playback_channels: [true, false],
                },
            ),
            element(
                "Auto Gain Control",
                Capabilities {
                    capture_volume: false,
                    playback_volume: false,
                    capture_switch: false,
                    playback_switch: true,
                    capture_channels: [false, false],
                    playback_channels: [true, false],
                },
            ),
        ],
    );
    let mut paths = empty_paths();
    assert_eq!(alsa.resolve(CText::Text("3-1:1.0"), &mut paths), AUDIO_OK);
    assert_eq!(paths.abi_version, ABI_VERSION);
    assert_eq!(paths.rx_capture_path_count, 1);
    assert_eq!(paths.tx_playback_path_count, 2);
    assert_eq!(paths.sidetone_path_count, 1);
    assert_eq!(paths.rx_compatibility_switch_path_count, 1);
    assert_eq!(path_element(&paths.rx_capture_paths[0]), "Mic");
    assert_eq!(paths.rx_capture_paths[0].direction, 0);
    assert_eq!(
        paths.rx_capture_paths[0].capabilities,
        CM119_MIXER_PATH_VOLUME | CM119_MIXER_PATH_SWITCH
    );
    assert_eq!(path_element(&paths.tx_playback_paths[0]), "Speaker");
    assert_eq!(paths.tx_playback_paths[0].channel, 0);
    assert_eq!(path_element(&paths.tx_playback_paths[1]), "Speaker");
    assert_eq!(paths.tx_playback_paths[1].channel, 1);
    assert_eq!(path_element(&paths.sidetone_paths[0]), "Mic");
    assert_eq!(path_element(&paths.rx_compatibility_switch_paths[0]), "Auto Gain Control");
    assert_eq!(
        paths.rx_compatibility_switch_paths[0].capabilities,
        CM119_MIXER_PATH_SWITCH
    );
    assert_eq!(alsa.attached_card, b"hw:4");
    assert_eq!(alsa.close_count, 1);
}

#[test]
fn cm119_mixer_resolver_accepts_headphone_layout_and_rejects_incomplete_layouts() {
    let mut alsa = alsa(
        vec![card(4, "3-1:1.0")],
        vec![
            element(
                "Mic",
                Capabilities {
                    capture_volume: true,
                    playback_volume: false,
                    capture_switch: true,
                    playback_switch: false,
                    capture_channels: [true, false],
                    playback_channels: [false, false],
                },
            ),
            element(
                "Headphone",
                Capabilities {
                    capture_volume: false,
                    playback_volume: true,
                    capture_switch: false,
                    playback_switch: true,
                    capture_channels: [false, false],
                    playback_channels: [true, true],
                },
            ),
        ],
    );
    let mut paths = empty_paths();
    assert_eq!(alsa.resolve(CText::Text("3-1:1.0"), &mut paths), AUDIO_OK);
    assert_eq!(paths.sidetone_path_count, 0);
    assert_eq!(path_element(&paths.tx_playback_paths[0]), "Headphone");
    assert_eq!(path_element(&paths.tx_playback_paths[1]), "Headphone");

    alsa.inventory.truncate(1);
    let paths_size = paths.struct_size;
    paths.abi_version = 123;
    assert_eq!(alsa.resolve(CText::Text("3-1:1.0"), &mut paths), AUDIO_UNSUPPORTED);
    assert_eq!(paths.struct_size, paths_size);
    assert_eq!(paths.abi_version, 0);
    assert_eq!(paths.tx_playback_path_count, 0);
}

#[test]
fn cm119_mixer_resolver_rejects_invalid_or_ambiguous_input_without_guessing() {
    let mut alsa = alsa(vec![card(4, "3-1:1.0")], Vec::new());
    let mut paths = empty_paths();
    assert_eq!(alsa.resolve(CText::Null, &mut paths), AUDIO_INVALID_ARGUMENT);
    assert_eq!(alsa.resolve(CText::Text("../3-1:1.0"), &mut paths), AUDIO_INVALID_ARGUMENT);
    paths.struct_size = 0;
    assert_eq!(alsa.resolve(CText::Text("3-1:1.0"), &mut paths), AUDIO_INVALID_ARGUMENT);
    paths = empty_paths();
    alsa.listing.push(card(5, "3-1:1.0"));
    assert_eq!(alsa.resolve(CText::Text("3-1:1.0"), &mut paths), AUDIO_UNSUPPORTED);
    assert_eq!(paths.abi_version, 0);
}

#[test]
fn cm119_append_keeps_empty_capabilities_and_rejects_unrepresentable_paths() {
    let mut paths = [Cm119MixerPath::blank(); CM119_MIXER_PATH_CAPACITY];
    let mut count = 0;
    let source = Cm119MixerPathSource {
        name: b"Mic",
        element_index: 7,
        channel: MixerChannel::Right,
        direction: MixerDirection::Capture,
        volume_supported: false,
        switch_supported: false,
    };
    assert_eq!(append_cm119_mixer_path(&mut paths, &mut count, source), Ok(()));
    assert_eq!(count, 0);
    let volume = Cm119MixerPathSource { volume_supported: true, ..source };
    count = CM119_MIXER_PATH_CAPACITY as u32;
    assert_eq!(
        append_cm119_mixer_path(&mut paths, &mut count, volume),
        Err(AUDIO_UNSUPPORTED)
    );
    count = 0;
    let long_name = vec![b'M'; CM119_MIXER_ELEMENT_NAME_CAPACITY];
    assert_eq!(
        append_cm119_mixer_path(
            &mut paths,
            &mut count,
            Cm119MixerPathSource { name: &long_name, ..volume }
        ),
        Err(AUDIO_UNSUPPORTED)
    );
    assert_eq!(count, 0);
    assert!(paths[0].element.iter().all(|value| *value == 0));

    assert_eq!(append_cm119_mixer_path(&mut paths, &mut count, volume), Ok(()));
    assert_eq!(count, 1);
    assert_eq!(path_element(&paths[0]), "Mic");
    assert_eq!(
        (paths[0].element_index, paths[0].channel, paths[0].direction, paths[0].capabilities),
        (7, 1, 0, CM119_MIXER_PATH_VOLUME)
    );
}

#[test]
fn cm119_resolver_rejects_null_output_and_invalid_utf8_before_opening_alsa() {
    let mut alsa = alsa(Vec::new(), Vec::new());
    let mut paths = empty_paths();
    paths.abi_version = 42;
    assert_eq!(alsa.resolve(CText::NotUtf8, &mut paths), AUDIO_INVALID_ARGUMENT);
    assert_unpublished(&paths);
    assert_eq!(alsa.open_count, 0);
}

#[test]
fn cm119_resolver_closes_alsa_at_each_setup_failure() {
    for fault in 0..4 {
        let mut alsa = alsa(vec![card(4, "3-1:1.0")], Vec::new());
        match fault {
            0 => alsa.open_result = -1,
            1 => alsa.attach_result = -1,
            2 => alsa.register_result = -1,
            _ => alsa.load_result = -1,
        }
        let mut paths = empty_paths();
        paths.abi_version = 42;
        assert_eq!(alsa.resolve(CText::Text("3-1:1.0"), &mut paths), AUDIO_ALSA_ERROR);
        assert_unpublished(&paths);
        assert_eq!(alsa.open_count, 1);
        assert_eq!(alsa.close_count, u32::from(fault != 0));
        assert_eq!(alsa.attach_count, u32::from(fault > 0));
        assert_eq!(alsa.register_count, u32::from(fault > 1));
        assert_eq!(alsa.load_count, u32::from(fault > 2));
    }
}

#[test]
fn cm119_resolver_skips_inactive_elements_and_closes_on_missing_names() {
    let mut inactive = mixer_element("Inactive", true, true);
    inactive.active = false;
    let mut alsa = alsa(
        vec![card(4, "3-1:1.0")],
        vec![
            inactive,
            mixer_element("Mic", true, false),
            mixer_element("Speaker", false, true),
        ],
    );
    let mut paths = empty_paths();
    assert_eq!(alsa.resolve(CText::Text("3-1:1.0"), &mut paths), AUDIO_OK);
    assert_eq!(paths.rx_capture_path_count, 1);
    assert_eq!(paths.tx_playback_path_count, 1);
    assert_eq!(paths.sidetone_path_count, 0);
    assert_eq!(path_element(&paths.rx_capture_paths[0]), "Mic");
    for element in alsa.inventory.iter_mut() {
        element.name = None;
    }
    assert_eq!(alsa.resolve(CText::Text("3-1:1.0"), &mut paths), AUDIO_ALSA_ERROR);
    assert_unpublished(&paths);
    assert_eq!(alsa.close_count, 2);
}

#[test]
fn cm119_resolver_rejects_missing_capture_and_oversized_path_inventory_atomically() {
    let mic = mixer_element("Mic", true, false);
    let speaker = mixer_element("Speaker", false, true);
    let mut sidetone = mixer_element("Mic Playback", true, true);
    sidetone.capabilities.capture_channels = [false, false];
    let mut boost = mixer_element("Auto Gain Control", false, false);
    boost.capabilities.playback_switch = true;
    boost.capabilities.playback_channels = [true, false];
    let long_name = "M".repeat(CM119_MIXER_ELEMENT_NAME_CAPACITY);
    let cases = vec![
        vec![speaker.clone()],
        vec![mic.clone(), mic.clone(), mic.clone(), speaker.clone()],
        vec![mic.clone(), sidetone.clone(), sidetone.clone(), sidetone],
        vec![mic.clone(), speaker.clone(), boost.clone(), boost.clone(), boost],
        vec![mixer_element(&long_name, true, false), speaker.clone()],
        vec![mic.clone(), mixer_element(&long_name, false, true)],
    ];
    for inventory in cases {
        let mut alsa = alsa(vec![card(4, "3-1:1.0")], inventory);
        let mut paths = empty_paths();
        paths.abi_version = 42;
        paths.rx_capture_path_count = 1;
        assert_eq!(alsa.resolve(CText::Text("3-1:1.0"), &mut paths), AUDIO_UNSUPPORTED);
        assert_unpublished(&paths);
        assert_eq!(alsa.close_count, 1);
    }
}

#[test]
fn classification_keeps_every_role_in_the_order_of_discovery() {
    let mut first = mixer_element("First", true, false);
    first.capabilities.capture_switch = false;
    let inventory = elements(&[
        first,
        mixer_element("Second", true, false),
        mixer_element("Speaker", false, true),
        mixer_element("Line", false, true),
        mixer_element("Ignored", false, true),
    ]);
    let paths = classify_cm119_mixer(&inventory, CM119_MIXER_PATHS_SIZE).unwrap();
    assert_eq!(paths.rx_capture_path_count, 2);
    assert_eq!(path_element(&paths.rx_capture_paths[0]), "First");
    assert_eq!(paths.rx_capture_paths[0].capabilities, CM119_MIXER_PATH_VOLUME);
    assert_eq!(path_element(&paths.rx_capture_paths[1]), "Second");
    assert_eq!(paths.tx_playback_path_count, 2);
    assert_eq!(path_element(&paths.tx_playback_paths[0]), "Speaker");
    assert_eq!(path_element(&paths.tx_playback_paths[1]), "Line");
}
