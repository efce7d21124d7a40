//! Opening mixer controls and working on them, over a simulated ALSA.
use rptadv_portaudio_alsa_adapter::abi::{
    AUDIO_ALSA_ERROR, AUDIO_INVALID_ARGUMENT, AUDIO_NO_MEMORY, AUDIO_OK, AUDIO_UNSUPPORTED,
};
use rptadv_portaudio_alsa_adapter::mixer::{
    card_name, mixer_create, mixer_create_for_usb_interface, MixerChannel, MixerConfig,
    MixerDirection, MixerOpen, MixerRequest, OpenCall, UsbMixerConfig, MIXER_CONFIG_SIZE,
};
use rptadv_portaudio_alsa_adapter::mixer_control::{
    mixer_set_switch, MixerCall, MixerControl, MixerOperation, MixerReply, MixerValue,
};
use rptadv_portaudio_alsa_adapter::mixer_level::{normalized_from_steps, steps_from_normalized};
use rptadv_portaudio_alsa_adapter::sysfs::SoundEntry;
use rptadv_portaudio_alsa_adapter::text::CText;

/// Arrays hold the capture value first and the playback value second.
struct Alsa {
    open_result: i32,
    attach_result: i32,
    register_result: i32,
    load_result: i32,
    id_malloc_result: i32,
    attach_count: u32,
    register_count: u32,
    load_count: u32,
    id_malloc_count: u32,
    id_free_count: u32,
    close_count: u32,
    element_available: bool,
    attached_card: Vec<u8>,
    volume_available: [bool; 2],
    switch_available: [bool; 2],
    handle_events_result: i32,
    handle_events_count: u32,
    range_result: [i32; 2],
    get_result: [i32; 2],
    set_result: [i32; 2],
    step_get_result: [i32; 2],
    step_set_result: [i32; 2],
    switch_get_result: [i32; 2],
    switch_set_result: [i32; 2],
    step_minimum: [i64; 2],
    step_maximum: [i64; 2],
    centibels: i64,
    steps: i64,
    switch_enabled: bool,
    last_channel: i32,
}

struct Mixer {
    channel: MixerChannel,
    direction: MixerDirection,
}

fn alsa() -> Alsa {
    Alsa {
        open_result: 0,
        attach_result: 0,
        register_result: 0,
        load_result: 0,
        id_malloc_result: 0,
        attach_count: 0,
        register_count: 0,
        load_count: 0,
        id_malloc_count: 0,
        id_free_count: 0,
        close_count: 0,
        element_available: true,
        attached_card: Vec::new(),
        volume_available: [true; 2],
        switch_available: [true; 2],
        handle_events_result: 0,
        handle_events_count: 0,
        range_result: [0; 2],
        get_result: [0; 2],
        set_result: [0; 2],
        step_get_result: [0; 2],
        step_set_result: [0; 2],
        switch_get_result: [0; 2],
        switch_set_result: [0; 2],
        step_minimum: [0; 2],
        step_maximum: [31; 2],
        centibels: -1_200,
        steps: 18,
        switch_enabled: true,
        last_channel: -1,
    }
}

impl Alsa {
    fn open(&mut self, request: MixerRequest<'_>) -> Result<Mixer, i32> {
        let direction = request.direction.as_ffi() as usize;
        let mut open = MixerOpen::begin();
        while let Some(call) = open.call() {
            let code = match call {
                OpenCall::Open => self.open_result,
                OpenCall::Attach => {
                    self.attach_count += 1;
                    self.attached_card = request.card.clone();
                    self.attach_result
                }
                OpenCall::Register => {
                    self.register_count += 1;
                    self.register_result
                }
                OpenCall::Load => {
                    self.load_count += 1;
                    self.load_result
                }
                OpenCall::AllocateId => {
                    self.id_malloc_count += 1;
                    self.id_malloc_result
                }
                OpenCall::Find => {
                    self.id_free_count += 1;
                    i32::from(self.element_available)
                }
                OpenCall::HasVolume => i32::from(self.volume_available[direction]),
                OpenCall::HasSwitch => i32::from(self.switch_available[direction]),
                OpenCall::Close => {
                    self.close_count += 1;
                    0
                }
            };
            open.reply(code);
        }
        if open.status == AUDIO_OK {
            Ok(Mixer { channel: request.channel, direction: request.direction })
        } else {
            Err(open.status)
        }
    }

    fn mixer_create(&mut self, config: Option<MixerConfig<'_>>) -> Result<Mixer, i32> {
        let request = mixer_create(config)?;
        self.open(request)
    }

    fn mixer_create_for_usb_interface(
        &mut self,
        listing: &Vec<SoundEntry>,
        config: Option<UsbMixerConfig<'_>>,
    ) -> Result<Mixer, i32> {
        let (path, mut request) = mixer_create_for_usb_interface(config)?;
        request.attach_usb_interface(Some(listing), path)?;
        self.open(request)
    }

    fn fake_mixer(&mut self, config: MixerConfig<'_>) -> Mixer {
        self.mixer_create(Some(config)).expect("created mixer")
    }

    fn reply(&mut self, mixer: &Mixer, call: MixerCall) -> MixerReply {
        let direction = mixer.direction.as_ffi() as usize;
        let (mut low, mut high) = (0, 0);
        let code = match call {
            MixerCall::Refresh => {
                self.handle_events_count += 1;
                self.handle_events_result
            }
            MixerCall::HasVolume => i32::from(self.volume_available[direction]),
            MixerCall::HasSwitch => i32::from(self.switch_available[direction]),
            MixerCall::GetStepRange => {
                (low, high) = (self.step_minimum[direction], self.step_maximum[direction]);
                0
            }
            MixerCall::GetCentibelRange => {
                (low, high) = (-5_000, 5_000);
                self.range_result[direction]
            }
            _ => {
                self.last_channel = mixer.channel.as_alsa_channel();
                match call {
                    MixerCall::GetCentibels => {
                        low = self.centibels;
                        self.get_result[direction]
                    }
                    MixerCall::SetCentibels(value) => {
                        self.centibels = value;
                        self.set_result[direction]
                    }
                    MixerCall::GetSteps => {
                        low = self.steps;
                        self.step_get_result[direction]
                    }
                    MixerCall::SetSteps(value) => {
                        self.steps = value;
                        self.step_set_result[direction]
                    }
                    MixerCall::GetSwitch => {
                        low = i64::from(self.switch_enabled);
                        self.switch_get_result[direction]
                    }
                    MixerCall::SetSwitch(enabled) => {
                        self.switch_enabled = enabled;
                        self.switch_set_result[direction]
                    }
                    _ => unreachable!(),
                }
            }
        };
        MixerReply { code, low, high }
    }

    fn run(&mut self, mixer: &Mixer, operation: MixerOperation) -> Result<MixerValue, i32> {
        let mut control = MixerControl::begin(operation);
        while let Some(call) = control.call() {
            let reply = self.reply(mixer, call);
            control.reply(reply);
        }
        control.result
    }

    fn set_switch(&mut self, mixer: &Mixer, enabled: u32) -> Result<MixerValue, i32> {
        let operation = mixer_set_switch(enabled)?;
        self.run(mixer, operation)
    }
}

fn config(direction: u32, channel: u32) -> MixerConfig<'static> {
    MixerConfig {
        struct_size: MIXER_CONFIG_SIZE,
        card: Some(b"default"),
        element: Some(b"Capture"),
        element_index: 0,
        channel,
        direction,
    }
}

fn usb_config(direction: u32, channel: u32) -> UsbMixerConfig<'static> {
    UsbMixerConfig {
        struct_size: MIXER_CONFIG_SIZE,
        usb_interface_path: CText::Text("3-1:1.0"),
        element: Some(b"Capture"),
        element_index: 0,
        channel,
        direction,
    }
}

fn card(card_index: u32, usb_interface_path: &str) -> SoundEntry {
    let card = format!("card{card_index}");
    let path = ["/", "sys", "devices", usb_interface_path, "sound", &card];
    SoundEntry {
        device_path: Some(path.iter().map(|part| Some(part.to_string())).collect()),
        name: Some(card),
        serial_text: None,
    }
}

#[test]
fn function_table_exercises_alsa_mixer_without_hardware() {
    let mut alsa = alsa();
    let mixer = alsa.fake_mixer(config(0, 0));
    assert_eq!(
        alsa.run(&mixer, MixerOperation::GetRange),
        Ok(MixerValue::Range(-5_000, 5_000))
    );
    assert_eq!(alsa.run(&mixer, MixerOperation::GetCentibels), Ok(MixerValue::Level(-1_200)));
    assert_eq!(alsa.run(&mixer, MixerOperation::SetCentibels(-2_500)), Ok(MixerValue::Done));
    assert_eq!(alsa.run(&mixer, MixerOperation::GetCentibels), Ok(MixerValue::Level(-2_500)));
    assert_eq!(alsa.run(&mixer, MixerOperation::GetStepRange), Ok(MixerValue::Range(0, 31)));
    assert_eq!(alsa.run(&mixer, MixerOperation::GetSteps), Ok(MixerValue::Level(18)));
    assert_eq!(alsa.run(&mixer, MixerOperation::SetSteps(27)), Ok(MixerValue::Done));
    assert_eq!(alsa.run(&mixer, MixerOperation::GetSteps), Ok(MixerValue::Level(27)));
    assert_eq!(alsa.run(&mixer, MixerOperation::GetNormalized), Ok(MixerValue::Normalized(870)));
    assert_eq!(alsa.run(&mixer, MixerOperation::SetNormalized(500)), Ok(MixerValue::Done));
    assert_eq!(alsa.run(&mixer, MixerOperation::GetSteps), Ok(MixerValue::Level(16)));
    assert_eq!(alsa.run(&mixer, MixerOperation::GetSwitch), Ok(MixerValue::Switch(true)));
    assert_eq!(alsa.set_switch(&mixer, 0), Ok(MixerValue::Done));
    assert_eq!(alsa.run(&mixer, MixerOperation::GetSwitch), Ok(MixerValue::Switch(false)));
    assert_eq!(alsa.close_count, 0);
}

#[test]
fn normalized_mixer_mapping_rounds_between_exact_native_endpoints() {
    assert_eq!(normalized_from_steps(0, 0, 31), Ok(0));
    assert_eq!(normalized_from_steps(31, 0, 31), Ok(999));
    assert_eq!(normalized_from_steps(16, 0, 31), Ok(516));
    assert_eq!(steps_from_normalized(0, 0, 31), Ok(0));
    assert_eq!(steps_from_normalized(999, 0, 31), Ok(31));
    assert_eq!(steps_from_normalized(500, 0, 31), Ok(16));
    assert_eq!(normalized_from_steps(-1, 0, 31), Err(AUDIO_ALSA_ERROR));
    assert_eq!(normalized_from_steps(32, 0, 31), Err(AUDIO_ALSA_ERROR));
    assert_eq!(normalized_from_steps(0, 4, 4), Err(AUDIO_UNSUPPORTED));
    assert_eq!(steps_from_normalized(1_000, 0, 31), Err(AUDIO_INVALID_ARGUMENT));
    assert_eq!(steps_from_normalized(0, 4, 4), Err(AUDIO_UNSUPPORTED));
}

#[test]
fn mixer_levels_survive_their_round_trips_and_stay_monotone() {
    let mut previous = 0;
    for steps in -7..=151 {
        let level = normalized_from_steps(steps, -7, 151).unwrap();
        assert!(level >= previous);
        previous = level;
        assert_eq!(steps_from_normalized(level, -7, 151), Ok(steps));
    }
    for level in 0..=999 {
        let steps = steps_from_normalized(level, -500, 700).unwrap();
        assert_eq!(normalized_from_steps(steps, -500, 700), Ok(level));
    }
    assert_eq!(normalized_from_steps(i64::MAX, i64::MIN, i64::MAX), Ok(999));
    assert_eq!(steps_from_normalized(999, i64::MIN, i64::MAX), Ok(i64::MAX));
    assert_eq!(steps_from_normalized(0, i64::MIN, i64::MAX), Ok(i64::MIN));
}

#[test]
fn usb_interface_mixer_resolution_uses_the_exact_sysfs_card() {
    let mut alsa = alsa();
    let listing = vec![card(4, "3-1:1.0"), card(7, "7-2:1.0")];
    assert!(alsa.mixer_create_for_usb_interface(&listing, Some(usb_config(0, 0))).is_ok());
    assert_eq!(alsa.attached_card, b"hw:4");
}

#[test]
fn card_names_are_decimal() {
    assert_eq!(card_name(0), b"hw:0");
    assert_eq!(card_name(10), b"hw:10");
    assert_eq!(card_name(u32::MAX), b"hw:4294967295");
}

#[test]
fn mixer_numbers_map_both_ways() {
    assert_eq!(MixerDirection::from_ffi(0), Ok(MixerDirection::Capture));
    assert_eq!(MixerDirection::from_ffi(1), Ok(MixerDirection::Playback));
    assert_eq!(MixerDirection::from_ffi(2), Err(AUDIO_INVALID_ARGUMENT));
    assert_eq!(MixerDirection::Playback.as_ffi(), 1);
    assert_eq!(MixerChannel::from_ffi(0), Ok(MixerChannel::Left));
    assert_eq!(MixerChannel::from_ffi(1), Ok(MixerChannel::Right));
    assert_eq!(MixerChannel::from_ffi(2), Err(AUDIO_INVALID_ARGUMENT));
    assert_eq!(MixerChannel::Right.as_ffi(), 1);
    assert_eq!(MixerChannel::Right.as_alsa_channel(), 1);
}

#[test]
fn mixer_create_validates_its_abi_strings_direction_and_channel() {
    let mut alsa = alsa();
    assert!(matches!(alsa.mixer_create(None), Err(AUDIO_INVALID_ARGUMENT)));
    let mut reject = |mutate: fn(&mut MixerConfig<'static>)| {
        let mut candidate = config(0, 0);
        mutate(&mut candidate);
        assert!(matches!(alsa.mixer_create(Some(candidate)), Err(AUDIO_INVALID_ARGUMENT)));
    };
    reject(|value| value.struct_size = 0);
    reject(|value| value.direction = 2);
    reject(|value| value.channel = 2);
    reject(|value| value.card = None);
    reject(|value| value.element = None);
    reject(|value| value.card = Some(b""));
    reject(|value| value.element = Some(b""));
}

#[test]
fn usb_interface_mixer_create_validates_configuration_before_sysfs_lookup() {
    let mut alsa = alsa();
    let empty = Vec::new();
    assert!(matches!(
        alsa.mixer_create_for_usb_interface(&empty, None),
        Err(AUDIO_INVALID_ARGUMENT)
    ));
    let mut reject = |mutate: fn(&mut UsbMixerConfig<'static>)| {
        let mut candidate = usb_config(0, 0);
        mutate(&mut candidate);
        assert!(matches!(
            alsa.mixer_create_for_usb_interface(&empty, Some(candidate)),
            Err(AUDIO_INVALID_ARGUMENT)
        ));
    };
    reject(|value| value.struct_size = 0);
    reject(|value| value.direction = 2);
    reject(|value| value.channel = 2);
    reject(|value| value.usb_interface_path = CText::Null);
    reject(|value| value.element = None);
    reject(|value| value.usb_interface_path = CText::Text(""));
    reject(|value| value.usb_interface_path = CText::Text("../3-1:1.0"));
    reject(|value| value.usb_interface_path = CText::Text("."));
    reject(|value| value.usb_interface_path = CText::Text(".."));
    reject(|value| value.usb_interface_path = CText::NotUtf8);
    reject(|value| value.element = Some(b""));
    assert!(matches!(
        alsa.mixer_create_for_usb_interface(&empty, Some(usb_config(0, 0))),
        Err(AUDIO_UNSUPPORTED)
    ));
}

#[test]
fn mixer_create_releases_partial_alsa_initialization() {
    let attempt = |direction: u32, channel: u32, change: fn(&mut Alsa)| {
        let mut alsa = alsa();
        change(&mut alsa);
        let error = alsa.mixer_create(Some(config(direction, channel))).err();
        (error, alsa)
    };

    let (error, alsa) = attempt(0, 0, |alsa| alsa.open_result = -41);
    assert_eq!(error, Some(AUDIO_ALSA_ERROR));
    assert_eq!(alsa.close_count, 0);

    let (error, alsa) = attempt(0, 0, |alsa| alsa.attach_result = -42);
    assert_eq!(error, Some(AUDIO_ALSA_ERROR));
    assert_eq!((alsa.attach_count, alsa.register_count, alsa.load_count), (1, 0, 0));
    assert_eq!(alsa.close_count, 1);

    let (error, alsa) = attempt(0, 0, |alsa| alsa.register_result = -43);
    assert_eq!(error, Some(AUDIO_ALSA_ERROR));
    assert_eq!((alsa.attach_count, alsa.register_count, alsa.load_count), (1, 1, 0));
    assert_eq!(alsa.close_count, 1);

    let (error, alsa) = attempt(0, 0, |alsa| alsa.load_result = -44);
    assert_eq!(error, Some(AUDIO_ALSA_ERROR));
    assert_eq!((alsa.attach_count, alsa.register_count, alsa.load_count), (1, 1, 1));
    assert_eq!(alsa.close_count, 1);

    let (error, alsa) = attempt(0, 0, |alsa| alsa.id_malloc_result = -45);
    assert_eq!(error, Some(AUDIO_NO_MEMORY));
    assert_eq!(alsa.id_malloc_count, 1);
    assert_eq!(alsa.id_free_count, 0);
    assert_eq!(alsa.close_count, 1);

    let (error, alsa) = attempt(0, 0, |alsa| alsa.element_available = false);
    assert_eq!(error, Some(AUDIO_UNSUPPORTED));
    assert_eq!(alsa.id_free_count, 1);
    assert_eq!(alsa.close_count, 1);

    let (error, alsa) = attempt(0, 0, |alsa| {
        alsa.volume_available[0] = false;
        alsa.switch_available[0] = false;
    });
    assert_eq!(error, Some(AUDIO_UNSUPPORTED));
    assert_eq!(alsa.close_count, 1);

    let (error, alsa) = attempt(1, 1, |alsa| {
        alsa.volume_available[1] = false;
        alsa.switch_available[1] = false;
    });
    assert_eq!(error, Some(AUDIO_UNSUPPORTED));
    assert_eq!(alsa.close_count, 1);
}

#[test]
fn mixer_switch_only_path_is_explicit_and_rejects_volume_operations() {
    let mut switch_only = alsa();
    switch_only.volume_available[0] = false;
    let mixer = switch_only.fake_mixer(config(0, 0));
    assert_eq!(switch_only.run(&mixer, MixerOperation::GetSwitch), Ok(MixerValue::Switch(true)));
    assert_eq!(switch_only.set_switch(&mixer, 0), Ok(MixerValue::Done));
    assert_eq!(switch_only.run(&mixer, MixerOperation::GetSwitch), Ok(MixerValue::Switch(false)));
    assert_eq!(switch_only.set_switch(&mixer, 2), Err(AUDIO_INVALID_ARGUMENT));
    for operation in [
        MixerOperation::GetRange,
        MixerOperation::GetSteps,
        MixerOperation::GetStepRange,
        MixerOperation::GetCentibels,
        MixerOperation::SetCentibels(0),
        MixerOperation::SetSteps(0),
        MixerOperation::GetNormalized,
        MixerOperation::SetNormalized(0),
    ] {
        assert_eq!(switch_only.run(&mixer, operation), Err(AUDIO_UNSUPPORTED));
    }

    let mut volume_only = alsa();
    volume_only.switch_available[0] = false;
    let mixer = volume_only.fake_mixer(config(0, 0));
    assert_eq!(volume_only.run(&mixer, MixerOperation::GetSwitch), Err(AUDIO_UNSUPPORTED));
    assert_eq!(volume_only.set_switch(&mixer, 0), Err(AUDIO_UNSUPPORTED));
}

#[test]
fn mixer_controls_support_capture_and_playback_and_report_errors() {
    for (direction, channel, centibels, out_of_range) in [(0, 0, -2_100, -1), (1, 1, -1_900, 32)] {
        let side = direction as usize;
        let mut alsa = alsa();
        let mixer = alsa.fake_mixer(config(direction, channel));
        assert!(alsa.run(&mixer, MixerOperation::GetRange).is_ok());
        assert!(alsa.run(&mixer, MixerOperation::GetCentibels).is_ok());
        assert!(alsa.run(&mixer, MixerOperation::SetCentibels(centibels)).is_ok());
        assert_eq!(alsa.last_channel, channel as i32);
        assert_eq!(alsa.centibels, centibels);
        alsa.range_result[side] = -51;
        assert_eq!(alsa.run(&mixer, MixerOperation::GetRange), Err(AUDIO_ALSA_ERROR));
        alsa.get_result[side] = -52;
        assert_eq!(alsa.run(&mixer, MixerOperation::GetCentibels), Err(AUDIO_ALSA_ERROR));
        alsa.set_result[side] = -53;
        assert_eq!(alsa.run(&mixer, MixerOperation::SetCentibels(-2_200)), Err(AUDIO_ALSA_ERROR));
        alsa.step_get_result[side] = -54;
        assert_eq!(alsa.run(&mixer, MixerOperation::GetSteps), Err(AUDIO_ALSA_ERROR));
        alsa.step_get_result[side] = 0;
        alsa.step_set_result[side] = -55;
        assert_eq!(alsa.run(&mixer, MixerOperation::SetSteps(12)), Err(AUDIO_ALSA_ERROR));
        alsa.step_set_result[side] = 0;
        assert_eq!(
            alsa.run(&mixer, MixerOperation::SetSteps(out_of_range)),
            Err(AUDIO_INVALID_ARGUMENT)
        );
        alsa.switch_get_result[side] = -56;
        assert_eq!(alsa.run(&mixer, MixerOperation::GetSwitch), Err(AUDIO_ALSA_ERROR));
        alsa.switch_get_result[side] = 0;
        alsa.switch_set_result[side] = -57;
        assert_eq!(alsa.set_switch(&mixer, 1), Err(AUDIO_ALSA_ERROR));
    }
}

#[test]
fn mixer_controls_propagate_refresh_failure_before_cached_access() {
    for direction in [0, 1] {
        let mut alsa = alsa();
        let mixer = alsa.fake_mixer(config(direction, 1));
        alsa.handle_events_count = 0;
        alsa.handle_events_result = -5;
        alsa.last_channel = -1;
        for operation in [
            MixerOperation::GetRange,
            MixerOperation::GetCentibels,
            MixerOperation::SetCentibels(-100),
            MixerOperation::GetStepRange,
            MixerOperation::GetSteps,
            MixerOperation::SetSteps(12),
            MixerOperation::GetNormalized,
            MixerOperation::SetNormalized(500),
            MixerOperation::GetSwitch,
            mixer_set_switch(0).unwrap(),
        ] {
            assert_eq!(alsa.run(&mixer, operation), Err(AUDIO_ALSA_ERROR));
        }
        assert_eq!(alsa.handle_events_count, 10);
        assert_eq!(alsa.last_channel, -1);
        assert_eq!(alsa.steps, 18);
        assert_eq!(alsa.centibels, -1_200);
        assert!(alsa.switch_enabled);
    }
}

/// ALSA's cache per handle, and its writes of a full stereo control.
struct Stereo {
    hardware: [i64; 2],
    cached: [[i64; 2]; 2],
}

impl Stereo {
    fn run(&mut self, handle: usize, operation: MixerOperation) -> Result<MixerValue, i32> {
        let mut control = MixerControl::begin(operation);
        while let Some(call) = control.call() {
            let (mut code, mut low, mut high) = (0, 0, 0);
            match call {
                MixerCall::Refresh => {
                    self.cached[handle] = self.hardware;
                    code = 1;
                }
                MixerCall::HasVolume | MixerCall::HasSwitch => code = 1,
                MixerCall::GetStepRange => high = 151,
                MixerCall::GetCentibelRange => (low, high) = (-5_000, 5_000),
                MixerCall::GetCentibels | MixerCall::GetSteps | MixerCall::GetSwitch => {
                    low = self.cached[handle][handle];
                }
                MixerCall::SetCentibels(value) | MixerCall::SetSteps(value) => {
                    self.set(handle, value);
                }
                MixerCall::SetSwitch(enabled) => self.set(handle, i64::from(enabled)),
            }
            control.reply(MixerReply { code, low, high });
        }
        control.result
    }

    fn set(&mut self, handle: usize, value: i64) {
        self.cached[handle][handle] = value;
        self.hardware = self.cached[handle];
    }
}

#[test]
fn mixer_refresh_preserves_sibling_channels_across_independent_handles() {
    let mut stereo = Stereo { hardware: [151, 107], cached: [[151, 107]; 2] };
    assert_eq!(stereo.run(0, MixerOperation::SetSteps(150)), Ok(MixerValue::Done));
    assert_eq!(stereo.run(1, MixerOperation::SetSteps(106)), Ok(MixerValue::Done));
    assert_eq!(stereo.hardware, [150, 106]);
    stereo.hardware[0] = 149;
    assert_eq!(stereo.run(0, MixerOperation::GetSteps), Ok(MixerValue::Level(149)));
    assert_eq!(stereo.run(1, MixerOperation::SetNormalized(999)), Ok(MixerValue::Done));
    assert_eq!(stereo.hardware, [149, 151]);
    assert_eq!(
        stereo.run(0, MixerOperation::GetNormalized),
        Ok(MixerValue::Normalized(normalized_from_steps(149, 0, 151).unwrap()))
    );
    assert_eq!(stereo.run(0, MixerOperation::SetCentibels(-1_000)), Ok(MixerValue::Done));
    assert_eq!(stereo.run(1, MixerOperation::SetCentibels(-2_000)), Ok(MixerValue::Done));
    assert_eq!(stereo.run(0, MixerOperation::GetCentibels), Ok(MixerValue::Level(-1_000)));
    assert_eq!(stereo.hardware, [-1_000, -2_000]);
    stereo = Stereo { hardware: [1, 1], cached: [[1, 1]; 2] };
    assert_eq!(stereo.run(0, mixer_set_switch(0).unwrap()), Ok(MixerValue::Done));
    assert_eq!(stereo.run(1, mixer_set_switch(0).unwrap()), Ok(MixerValue::Done));
    assert_eq!(stereo.run(0, MixerOperation::GetSwitch), Ok(MixerValue::Switch(false)));
    assert_eq!(stereo.hardware, [0, 0]);
}

#[test]
fn normalized_mixer_controls_propagate_each_relevant_alsa_error() {
    let mut alsa = alsa();
    let mixer = alsa.fake_mixer(config(0, 0));
    alsa.step_minimum[0] = 32;
    alsa.step_maximum[0] = 31;
    assert_eq!(alsa.run(&mixer, MixerOperation::GetStepRange), Err(AUDIO_ALSA_ERROR));
    assert_eq!(alsa.run(&mixer, MixerOperation::SetSteps(10)), Err(AUDIO_ALSA_ERROR));
    assert_eq!(alsa.run(&mixer, MixerOperation::GetNormalized), Err(AUDIO_ALSA_ERROR));
    assert_eq!(alsa.run(&mixer, MixerOperation::SetNormalized(500)), Err(AUDIO_ALSA_ERROR));

    alsa.step_minimum[0] = 0;
    alsa.step_get_result[0] = -71;
    assert_eq!(alsa.run(&mixer, MixerOperation::GetNormalized), Err(AUDIO_ALSA_ERROR));

    alsa.step_get_result[0] = 0;
    alsa.steps = 32;
    assert_eq!(alsa.run(&mixer, MixerOperation::GetNormalized), Err(AUDIO_ALSA_ERROR));
    assert_eq!(
        alsa.run(&mixer, MixerOperation::SetNormalized(1_000)),
        Err(AUDIO_INVALID_ARGUMENT)
    );

    alsa.steps = 18;
    alsa.step_set_result[0] = -72;
    assert_eq!(alsa.run(&mixer, MixerOperation::SetNormalized(500)), Err(AUDIO_ALSA_ERROR));
}
