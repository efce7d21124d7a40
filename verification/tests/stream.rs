//! Stream lifecycle, statistics, timing and callbacks against a simulated host.
use std::collections::VecDeque;

use rptadv_portaudio_alsa_adapter::abi::{
    StreamConfig, ValidatedStreamConfig, ABI_VERSION, AUDIO_DEVICE_BUSY, AUDIO_INVALID_ARGUMENT,
    AUDIO_NO_MEMORY, AUDIO_OK, AUDIO_PORTAUDIO_ERROR, AUDIO_UNSUPPORTED, DEFAULT_DEVICE,
    STREAM_CONFIG_SIZE,
};
use rptadv_portaudio_alsa_adapter::callback::{
    input_overflowed, CaptureCallback, CaptureState, PA_ABORT, PA_CONTINUE,
};
use rptadv_portaudio_alsa_adapter::capture_ring::{
    CaptureRing, CaptureSnapshot, PullCall, RingCreation, RingObservation, RingPull,
};
use rptadv_portaudio_alsa_adapter::devices::{
    resolve_device, DeviceInfo, DeviceInventory, DeviceName, PA_FLOAT_32,
};
use rptadv_portaudio_alsa_adapter::pcm::{device_input_to_canonical, MeterAccumulator};
use rptadv_portaudio_alsa_adapter::render::{
    portaudio_callback_begin, PlaybackState, RenderCallback, RenderStep,
};
use rptadv_portaudio_alsa_adapter::runtime::{portaudio_acquire, portaudio_release, DeviceLease};
use rptadv_portaudio_alsa_adapter::stats::{
    stream_get_stats, SharedStats, StreamStats, PA_INPUT_OVERFLOW, PA_INTERNAL_ERROR, PA_NO_ERROR,
    PA_OUTPUT_UNDERFLOW, STREAM_STATS_SIZE, STREAM_STATS_TIMING_SIZE, STREAM_STATS_V1_SIZE,
};
use rptadv_portaudio_alsa_adapter::stream_create::{AdapterProcess, CreateCall, StreamCreate};
use rptadv_portaudio_alsa_adapter::stream_destroy::{DestroyCall, StreamDestroy};
use rptadv_portaudio_alsa_adapter::stream_start::{
    Scheduling, StartCall, StartReply, StreamStart, SCHED_FIFO,
};
use rptadv_portaudio_alsa_adapter::stream_stop::{
    Endpoint, StopCall, StopEndpoints, StreamControl,
};
use rptadv_portaudio_alsa_adapter::timing::{
    monotonic_ns, stream_get_timing, stream_timing_begin, StreamInfo, StreamTiming, Timespec,
    STREAM_TIMING_SIZE,
};

const PA_NO_DEVICE: i32 = -1;
const TEST_FUNCTIONS: usize = 1;
const ALTERNATE_FUNCTIONS: usize = 2;

type Tick = fn(&mut usize, &[u32], &mut [u32], u32) -> i32;

fn copy_input_to_output(_context: &mut usize, input: &[u32], output: &mut [u32], _frames: u32) -> i32 {
    output.copy_from_slice(input);
    0
}

fn fail_tick(_context: &mut usize, _input: &[u32], _output: &mut [u32], _frames: u32) -> i32 {
    1
}

fn fail_on_second_tick(context: &mut usize, input: &[u32], output: &mut [u32], frames: u32) -> i32 {
    *context += 1;
    if *context == 2 {
        return 1;
    }
    copy_input_to_output(context, input, output, frames)
}

fn count_samples(context: &mut usize, _input: &[u32], output: &mut [u32], _frames: u32) -> i32 {
    for sample in output.iter_mut() {
        *context += 1;
        *sample = (*context as f32 / 64.0).to_bits();
    }
    0
}

fn bits(samples: &[f32]) -> Vec<u32> {
    samples.iter().map(|sample| sample.to_bits()).collect()
}

fn average(left: u32, right: u32) -> u32 {
    ((f32::from_bits(left) + f32::from_bits(right)) * 0.5).to_bits()
}

fn add_square(sum: f64, sample: u32) -> f64 {
    let value = f64::from(f32::from_bits(sample));
    sum + value * value
}

fn root(sum: f64, count: u64) -> u32 {
    ((sum / count as f64).sqrt() as f32).to_bits()
}

/// A plain queue in place of the rate-adjusting ring.
struct FakeRing {
    samples: VecDeque<u32>,
    capacity: u64,
    discarded: u64,
    missing: u64,
}

impl FakeRing {
    fn new(capacity: u64) -> Self {
        FakeRing { samples: VecDeque::new(), capacity, discarded: 0, missing: 0 }
    }

    fn push(&mut self, input: &[u32]) -> u64 {
        let mut accepted = 0;
        for sample in input {
            if (self.samples.len() as u64) < self.capacity {
                self.samples.push_back(*sample);
                accepted += 1;
            } else {
                self.discarded += 1;
            }
        }
        accepted
    }

    fn render(&mut self, output: &mut [u32]) -> u64 {
        let mut real = 0;
        for sample in output.iter_mut() {
            match self.samples.pop_front() {
                Some(value) => {
                    *sample = value;
                    real += 1;
                }
                None => {
                    *sample = 0;
                    self.missing += 1;
                }
            }
        }
        real
    }

    fn observe(&self) -> RingObservation {
        RingObservation {
            capacity_samples: self.capacity,
            available_samples: self.samples.len() as u64,
            discarded_samples: self.discarded,
            missing_samples: self.missing,
            adapter_error_count: 0,
            ratio_correction_ppm: 0,
        }
    }
}

struct FakePortAudio {
    endpoint_active: Vec<i32>,
    open_results: VecDeque<i32>,
    start_results: VecDeque<i32>,
    close_results: VecDeque<i32>,
    create_calls: Vec<&'static str>,
    initialize_count: u32,
    terminate_count: u32,
    open_count: u32,
    close_count: u32,
    start_count: u32,
    stop_count: u32,
    abort_count: u32,
    active: i32,
    device_count: i32,
    default_input_device: i32,
    default_output_device: i32,
    device_info_available: bool,
    stream_info_available: bool,
    max_input_channels: i32,
    max_output_channels: i32,
    initialize_result: i32,
    ring_result: i32,
    open_result: i32,
    start_result: i32,
    stop_result: i32,
    abort_result: i32,
    close_result: i32,
    activates_before_failing: bool,
    input_format: u64,
    output_format: u64,
    input_latency: f64,
    output_latency: f64,
    sample_rate: u32,
    frames_per_buffer: usize,
    stream_info: Info,
    capture_info: Option<Info>,
    separate_capture_info: bool,
}

#[derive(Clone, Copy)]
struct Info {
    struct_version: i32,
    input_latency: f64,
    output_latency: f64,
    sample_rate: f64,
}

fn fake_stream_info() -> Info {
    Info { struct_version: 1, input_latency: 0.008, output_latency: 0.012, sample_rate: 47_999.5 }
}

fn info_bits(info: Info) -> StreamInfo {
    StreamInfo {
        struct_version: info.struct_version,
        input_latency: info.input_latency.to_bits(),
        output_latency: info.output_latency.to_bits(),
        sample_rate: info.sample_rate.to_bits(),
    }
}

impl FakePortAudio {
    fn new() -> Self {
        FakePortAudio {
            endpoint_active: Vec::new(),
            open_results: VecDeque::new(),
            start_results: VecDeque::new(),
            close_results: VecDeque::new(),
            create_calls: Vec::new(),
            initialize_count: 0,
            terminate_count: 0,
            open_count: 0,
            close_count: 0,
            start_count: 0,
            stop_count: 0,
            abort_count: 0,
            active: 0,
            device_count: 2,
            default_input_device: 0,
            default_output_device: 1,
            device_info_available: true,
            stream_info_available: true,
            max_input_channels: 2,
            max_output_channels: 2,
            initialize_result: 0,
            ring_result: 0,
            open_result: 0,
            start_result: 0,
            stop_result: 0,
            abort_result: 0,
            close_result: 0,
            activates_before_failing: false,
            input_format: 0,
            output_format: 0,
            input_latency: 0.0,
            output_latency: 0.0,
            sample_rate: 0,
            frames_per_buffer: 0,
            stream_info: fake_stream_info(),
            capture_info: Some(fake_stream_info()),
            separate_capture_info: false,
        }
    }

    fn force_active(&mut self, active: i32) {
        self.endpoint_active.fill(active);
        self.active = active;
    }

    fn set_active(&mut self, handle: usize, active: i32) {
        self.endpoint_active[handle - 1] = active;
        self.active = i32::from(self.endpoint_active.iter().any(|value| *value == 1));
    }

    fn inventory(&self) -> DeviceInventory<f64> {
        let mut devices = Vec::new();
        for device in 0..self.device_count.max(0) {
            devices.push(if self.device_info_available {
                Some(DeviceInfo {
                    name: DeviceName::Text(
                        if device == 1 { "Other (hw:7,0)" } else { "CM119 (hw:4,0)" }.to_string(),
                    ),
                    max_input_channels: self.max_input_channels,
                    max_output_channels: self.max_output_channels,
                    default_low_input_latency: 0.004,
                    default_low_output_latency: 0.006,
                })
            } else {
                None
            });
        }
        DeviceInventory {
            default_input_device: self.default_input_device,
            default_output_device: self.default_output_device,
            device_count: self.device_count,
            devices,
        }
    }

    fn start(&mut self, handle: usize) -> i32 {
        self.start_count += 1;
        if self.activates_before_failing {
            self.set_active(handle, 1);
            return -31;
        }
        let result = self.start_results.pop_front().unwrap_or(self.start_result);
        if result == PA_NO_ERROR {
            self.set_active(handle, 1);
        }
        result
    }

    fn stop(&mut self, handle: usize) -> i32 {
        self.stop_count += 1;
        if self.stop_result == PA_NO_ERROR {
            self.set_active(handle, 0);
        }
        self.stop_result
    }

    fn abort(&mut self, handle: usize) -> i32 {
        self.abort_count += 1;
        if self.abort_result == PA_NO_ERROR {
            self.set_active(handle, 0);
        }
        self.abort_result
    }

    fn close(&mut self, handle: usize) -> i32 {
        self.close_count += 1;
        let result = self.close_results.pop_front().unwrap_or(self.close_result);
        if result == PA_NO_ERROR {
            self.set_active(handle, 0);
        }
        result
    }

    fn is_active(&self, handle: usize) -> i32 {
        self.endpoint_active[handle - 1]
    }
}

struct FakeScheduling {
    policy: i32,
    priority: i32,
    maximum: i32,
    get_result: i32,
    set_results: VecDeque<i32>,
    set_requests: Vec<(i32, i32)>,
    start_schedule: Option<(i32, i32)>,
    events: Vec<&'static str>,
}

impl FakeScheduling {
    fn new() -> Self {
        FakeScheduling {
            policy: 2,
            priority: 10,
            maximum: 99,
            get_result: 0,
            set_results: VecDeque::new(),
            set_requests: Vec::new(),
            start_schedule: None,
            events: Vec::new(),
        }
    }

    fn set(&mut self, wanted: Scheduling) -> i32 {
        self.events.push("set");
        self.set_requests.push((wanted.policy, wanted.priority));
        let result = self.set_results.pop_front().unwrap_or(0);
        if result == 0 {
            self.policy = wanted.policy;
            self.priority = wanted.priority;
        }
        result
    }
}

fn create_call_name(call: &CreateCall<f64>) -> &'static str {
    match call {
        CreateCall::Initialize => "initialize",
        CreateCall::ReadInventory => "inventory",
        CreateCall::CreateRing(_) => "ring",
        CreateCall::Open { endpoint: Endpoint::Capture, .. } => "open capture",
        CreateCall::Open { endpoint: Endpoint::Playback, .. } => "open playback",
        CreateCall::CloseCapture => "close capture",
        CreateCall::Terminate => "terminate",
    }
}

struct World {
    process: AdapterProcess,
    pa: FakePortAudio,
    sched: FakeScheduling,
    clock: u64,
}

struct Stream {
    functions: usize,
    control: StreamControl,
    lease: Option<DeviceLease>,
    ring: CaptureRing,
    fifo: FakeRing,
    playback_handle: usize,
    capture_handle: usize,
    capture: CaptureState<f64>,
    playback: PlaybackState<f64>,
    silence: Vec<u32>,
    input_channels: usize,
    tick: Tick,
    context: usize,
    ring_locked: bool,
}

fn world() -> World {
    World {
        process: AdapterProcess::new(),
        pa: FakePortAudio::new(),
        sched: FakeScheduling::new(),
        clock: 1_000,
    }
}

impl World {
    fn reset(&mut self) {
        self.pa = FakePortAudio::new();
        self.sched = FakeScheduling::new();
    }

    fn now(&mut self) -> u64 {
        self.clock += 1_000;
        self.clock
    }

    fn create(
        &mut self,
        functions: usize,
        config: Option<StreamConfig<Tick, usize>>,
    ) -> (i32, Option<Stream>) {
        let (mut create, validated) =
            match StreamCreate::<f64>::begin(&mut self.process, functions, config) {
                Ok(begun) => begun,
                Err(error) => return (error, None),
            };
        let mut fifo = FakeRing::new(0);
        let (mut playback_handle, mut capture_handle) = (0, 0);
        while let Some(call) = create.call() {
            self.pa.create_calls.push(create_call_name(&call));
            let code = match call {
                CreateCall::Initialize => {
                    self.pa.initialize_count += 1;
                    self.pa.initialize_result
                }
                CreateCall::ReadInventory => {
                    let inventory = self.pa.inventory();
                    create.inventory(&mut self.process, &inventory);
                    continue;
                }
                CreateCall::CreateRing(config) => {
                    fifo = FakeRing::new(config.capacity_samples);
                    self.pa.ring_result
                }
                CreateCall::Open { endpoint, parameters, sample_rate_hz, frames_per_buffer } => {
                    self.pa.open_count += 1;
                    match endpoint {
                        Endpoint::Capture => {
                            self.pa.input_format = parameters.sample_format;
                            self.pa.input_latency = parameters.suggested_latency;
                        }
                        Endpoint::Playback => {
                            self.pa.output_format = parameters.sample_format;
                            self.pa.output_latency = parameters.suggested_latency;
                        }
                    }
                    self.pa.sample_rate = sample_rate_hz;
                    self.pa.frames_per_buffer = frames_per_buffer;
                    let result =
                        self.pa.open_results.pop_front().unwrap_or(self.pa.open_result);
                    if result == PA_NO_ERROR {
                        self.pa.endpoint_active.push(0);
                        match endpoint {
                            Endpoint::Capture => capture_handle = self.pa.endpoint_active.len(),
                            Endpoint::Playback => playback_handle = self.pa.endpoint_active.len(),
                        }
                    }
                    result
                }
                CreateCall::CloseCapture => self.pa.close(capture_handle),
                CreateCall::Terminate => {
                    self.pa.terminate_count += 1;
                    0
                }
            };
            create.reply(&mut self.process, code);
        }
        if create.status != AUDIO_OK && create.lease.is_none() {
            return (create.status, None);
        }
        let mut stream = prepared(
            validated.maximum_frame_count,
            validated.input_channels,
            validated.output_channels,
            validated.native_tick,
        );
        stream.functions = functions;
        stream.control = create.stream;
        stream.lease = create.lease;
        stream.fifo = fifo;
        stream.playback_handle = playback_handle;
        stream.capture_handle = capture_handle;
        (create.status, Some(stream))
    }

    fn fake_stream(&mut self, config: &StreamConfig<Tick, usize>) -> Stream {
        let (status, stream) = self.create(TEST_FUNCTIONS, Some(*config));
        assert_eq!(status, AUDIO_OK);
        stream.expect("created stream")
    }

    fn stop_call(&mut self, stream: &Stream, call: StopCall) -> i32 {
        match call {
            StopCall::Active(endpoint) => self.pa.is_active(stream.handle(endpoint)),
            StopCall::Stop(endpoint) => self.pa.stop(stream.handle(endpoint)),
            StopCall::Abort(endpoint) => {
                self.sched.events.push("abort");
                self.pa.abort(stream.handle(endpoint))
            }
        }
    }

    fn stream_stop(&mut self, stream: &mut Stream) -> i32 {
        let mut stop = StopEndpoints::begin(&stream.control);
        while let Some(call) = stop.call() {
            let code = self.stop_call(stream, call);
            stop.reply(&mut stream.control, code);
        }
        stop.status
    }

    fn stream_start(&mut self, stream: &mut Stream) -> i32 {
        let mut start = StreamStart::begin();
        while let Some(call) = start.call() {
            let reply = match call {
                StartCall::Active(endpoint) | StartCall::Check(endpoint) => {
                    StartReply::code(self.pa.is_active(stream.handle(endpoint)))
                }
                StartCall::Stopping(call) => StartReply::code(self.stop_call(stream, call)),
                StartCall::LockRing => StartReply::code(i32::from(stream.ring_locked)),
                StartCall::ResetRing => {
                    if self.pa.ring_result == 0 {
                        assert_eq!(stream.ring.reset(RingCreation::Created), Ok(()));
                        stream.fifo = FakeRing::new(stream.ring.config().capacity_samples);
                    }
                    StartReply::code(self.pa.ring_result)
                }
                StartCall::GetScheduling => {
                    self.sched.events.push("self");
                    self.sched.events.push("get");
                    StartReply {
                        code: self.sched.get_result,
                        scheduling: Scheduling {
                            policy: self.sched.policy,
                            priority: self.sched.priority,
                        },
                    }
                }
                StartCall::PriorityMax(policy) => {
                    assert_eq!(policy, SCHED_FIFO);
                    self.sched.events.push("max");
                    StartReply::code(self.sched.maximum)
                }
                StartCall::Elevate(wanted) | StartCall::Restore(wanted) => {
                    StartReply::code(self.sched.set(wanted))
                }
                StartCall::Start(endpoint) => {
                    self.sched.events.push("start");
                    self.sched.start_schedule = Some((self.sched.policy, self.sched.priority));
                    StartReply::code(self.pa.start(stream.handle(endpoint)))
                }
                StartCall::Abort(endpoint) => {
                    self.sched.events.push("abort");
                    StartReply::code(self.pa.abort(stream.handle(endpoint)))
                }
            };
            start.reply(&mut stream.control, reply);
        }
        start.status
    }

    /// Returns the stream where its storage has to be kept.
    fn stream_destroy(&mut self, stream: Stream) -> Option<Stream> {
        let mut stream = stream;
        let lease = stream.lease.take();
        let mut destroy =
            StreamDestroy::begin(&stream.control, &mut self.process, stream.functions, lease);
        while let Some(call) = destroy.call() {
            let code = match call {
                DestroyCall::Stopping(call) => self.stop_call(&stream, call),
                DestroyCall::Close(endpoint) => self.pa.close(stream.handle(endpoint)),
                DestroyCall::Terminate => {
                    self.pa.terminate_count += 1;
                    0
                }
            };
            destroy.reply(&mut stream.control, &mut self.process, code);
        }
        if destroy.freed {
            None
        } else {
            stream.lease = destroy.lease;
            Some(stream)
        }
    }

    fn capture_callback(
        &mut self,
        stream: &mut Stream,
        input: Option<&[f32]>,
        frames: usize,
        flags: u64,
    ) -> i32 {
        let now = if input_overflowed(flags) { self.now() } else { 0 };
        let input = input.map(bits);
        let mut callback = CaptureCallback::begin(
            &stream.capture,
            &mut stream.control.stats,
            frames,
            flags,
            now,
        );
        while callback.chunk().is_some() {
            let samples = callback.take(
                &mut stream.capture,
                input.as_deref(),
                &stream.silence,
                &add_square,
            );
            let accepted = stream.fifo.push(samples);
            let pushed = CaptureRing::push(0, accepted).is_ok();
            callback.pushed(&mut stream.control.stats, pushed);
        }
        callback.finish(&stream.capture, &mut stream.control.stats, &root)
    }

    fn playback_callback(
        &mut self,
        stream: &mut Stream,
        output: Option<&mut [f32]>,
        frames: usize,
        flags: u64,
    ) -> i32 {
        let start = self.now();
        let flags = portaudio_callback_begin(
            &mut stream.control.stats,
            start,
            frames as u64,
            48_000,
            flags,
        );
        let result = stream.render(output, frames, flags, |stream, frames| {
            stream.pull(frames).is_ok()
        });
        let end = self.now();
        stream.control.stats.callback_end(start, end);
        result
    }

    fn stream_timing(&mut self, stream: &mut Stream, timing: &mut StreamTiming) -> i32 {
        let code = stream_timing_begin(timing);
        if code != AUDIO_OK {
            return code;
        }
        let playback =
            if self.pa.stream_info_available { Some(info_bits(self.pa.stream_info)) } else { None };
        let capture = if self.pa.separate_capture_info {
            self.pa.capture_info.map(info_bits)
        } else {
            playback
        };
        stream_get_timing(timing, &mut stream.control.stats, playback, capture)
    }
}

impl Stream {
    fn handle(&self, endpoint: Endpoint) -> usize {
        match endpoint {
            Endpoint::Playback => self.playback_handle,
            Endpoint::Capture => self.capture_handle,
        }
    }

    fn snapshot(&self) -> Result<CaptureSnapshot, i32> {
        self.ring.snapshot(0, self.fifo.observe())
    }

    fn stats(&self) -> StreamStats {
        let (stats, length) =
            stream_get_stats(STREAM_STATS_SIZE, &self.control.stats, self.snapshot()).unwrap();
        assert_eq!(length, STREAM_STATS_SIZE);
        stats
    }

    /// Draws `frames` mono samples and makes them canonical input.
    fn pull(&mut self, frames: usize) -> Result<u64, i32> {
        let mono = &mut self.playback.mono_input[..frames];
        let mut pull = RingPull::begin(&self.ring, mono, 0);
        while let Some(call) = pull.call() {
            match call {
                PullCall::Observe => pull.observed(&mut self.ring, 0, self.fifo.observe()),
                PullCall::Render { frames, reserve, target } => {
                    assert_eq!(frames, mono.len() as u64);
                    assert_eq!(reserve, 96);
                    assert_eq!(target, self.ring.target);
                    let real = self.fifo.render(mono);
                    pull.rendered(mono, 0, 0, real);
                }
            }
        }
        let result = pull.result;
        if result.is_ok() {
            self.playback.duplicate_mono(frames);
        }
        result
    }

    fn render<F: FnMut(&mut Stream, usize) -> bool>(
        &mut self,
        output: Option<&mut [f32]>,
        frames: usize,
        flags: u64,
        mut fill_input: F,
    ) -> i32 {
        let Some(output) = output else {
            let callback = RenderCallback::begin_without_output(
                &self.playback,
                &mut self.control.stats,
                frames,
            );
            return callback.finish(&self.playback, &mut self.control.stats, &root);
        };
        let mut device = bits(output);
        let mut callback = RenderCallback::begin(
            &self.playback,
            &mut self.control.stats,
            &mut device,
            frames,
            flags,
        );
        loop {
            match callback.step() {
                RenderStep::Fill(chunk) => {
                    let filled = fill_input(self, chunk.frames);
                    callback.prepared(&mut self.playback, &mut self.control.stats, filled);
                }
                RenderStep::Tick(chunk) => {
                    let samples = 2 * chunk.frames;
                    assert!(self.playback.canonical_output[..samples].iter().all(|bit| *bit == 0));
                    let code = (self.tick)(
                        &mut self.context,
                        &self.playback.canonical_input[..samples],
                        &mut self.playback.canonical_output[..samples],
                        chunk.frames as u32,
                    );
                    callback.ticked(
                        &mut self.playback,
                        &mut self.control.stats,
                        &mut device,
                        code,
                        &average,
                        &add_square,
                    );
                }
                RenderStep::Finished => break,
            }
        }
        for (target, source) in output.iter_mut().zip(&device) {
            *target = f32::from_bits(*source);
        }
        callback.finish(&self.playback, &mut self.control.stats, &root)
    }

    /// Renders with an exact input provider in place of the ring.
    fn process_callback(
        &mut self,
        input: Option<&[f32]>,
        output: Option<&mut [f32]>,
        frames: usize,
        flags: u64,
    ) -> i32 {
        if input_overflowed(flags) {
            self.control.stats.input_overflow_count += 1;
        }
        let channels = self.input_channels;
        let input = input.map(bits);
        let mut offset = 0;
        let result = self.render(output, frames, flags, |stream, frames| {
            let samples = input
                .as_ref()
                .map(|input| &input[offset * channels..(offset + frames) * channels]);
            if let Some(samples) = samples {
                stream.capture.input_meter.observe(samples, &add_square);
            }
            device_input_to_canonical(
                samples,
                channels,
                &mut stream.playback.canonical_input[..2 * frames],
                0,
            );
            offset += frames;
            true
        });
        let callback = CaptureCallback {
            frame_count: 0,
            maximum: self.capture.maximum_frame_count,
            offset: 0,
            aborted: false,
        };
        callback.finish(&self.capture, &mut self.control.stats, &root);
        result
    }
}

fn prepared(
    maximum_frame_count: usize,
    input_channels: usize,
    output_channels: usize,
    tick: Tick,
) -> Stream {
    let ring = CaptureRing::new(maximum_frame_count).expect("prepare capture ring");
    Stream {
        functions: TEST_FUNCTIONS,
        control: StreamControl::new(),
        lease: None,
        ring,
        fifo: FakeRing::new(ring.config().capacity_samples),
        playback_handle: 0,
        capture_handle: 0,
        capture: CaptureState { maximum_frame_count, input_meter: MeterAccumulator::new(0.0) },
        playback: PlaybackState::new(48_000, maximum_frame_count, output_channels, 0.0),
        silence: vec![0; maximum_frame_count],
        input_channels,
        tick,
        context: 0,
        ring_locked: false,
    }
}

fn stream_config() -> StreamConfig<Tick, usize> {
    StreamConfig {
        struct_size: STREAM_CONFIG_SIZE,
        abi_version: ABI_VERSION,
        native_sample_rate_hz: 48_000,
        maximum_frame_count: 2,
        input_device_index: DEFAULT_DEVICE,
        output_device_index: DEFAULT_DEVICE,
        input_device_channels: 1,
        output_device_channels: 1,
        native_tick: Some(copy_input_to_output),
        native_tick_context: 0,
    }
}

fn empty_timing() -> StreamTiming {
    StreamTiming {
        struct_size: STREAM_TIMING_SIZE,
        abi_version: 0,
        input_latency_seconds: 0,
        output_latency_seconds: 0,
        sample_rate_hz: 0,
    }
}

fn test_stream(
    maximum_frame_count: usize,
    input_channels: usize,
    output_channels: usize,
    tick: Tick,
) -> Stream {
    prepared(maximum_frame_count, input_channels, output_channels, tick)
}

#[test]
fn validate_stream_config_rejects_missing_tick() {
    let config: StreamConfig<Tick, usize> = StreamConfig {
        struct_size: STREAM_CONFIG_SIZE,
        abi_version: ABI_VERSION,
        native_sample_rate_hz: 48_000,
        maximum_frame_count: 960,
        input_device_index: DEFAULT_DEVICE,
        output_device_index: DEFAULT_DEVICE,
        input_device_channels: 1,
        output_device_channels: 1,
        native_tick: None,
        native_tick_context: 0,
    };
    assert!(matches!(
        ValidatedStreamConfig::from_ffi(Some(config)),
        Err(AUDIO_INVALID_ARGUMENT)
    ));
}

#[test]
fn validate_stream_config_rejects_every_incompatible_abi_field() {
    let missing: Option<StreamConfig<Tick, usize>> = None;
    assert!(matches!(ValidatedStreamConfig::from_ffi(missing), Err(AUDIO_INVALID_ARGUMENT)));

    let reject = |mutate: fn(&mut StreamConfig<Tick, usize>)| {
        let mut config = stream_config();
        mutate(&mut config);
        assert!(matches!(
            ValidatedStreamConfig::from_ffi(Some(config)),
            Err(AUDIO_INVALID_ARGUMENT)
        ));
    };
    reject(|value| value.struct_size = 0);
    reject(|value| value.abi_version = ABI_VERSION + 1);
    reject(|value| value.native_sample_rate_hz = 0);
    reject(|value| value.maximum_frame_count = 0);
    reject(|value| value.input_device_channels = 0);
    reject(|value| value.input_device_channels = 3);
    reject(|value| value.output_device_channels = 0);
    reject(|value| value.output_device_channels = 3);
    reject(|value| value.input_device_index = DEFAULT_DEVICE - 1);
    reject(|value| value.output_device_index = DEFAULT_DEVICE - 1);
}

#[test]
fn validate_stream_config_preserves_valid_configuration() {
    let mut config = stream_config();
    config.native_sample_rate_hz = 96_000;
    config.maximum_frame_count = 1_024;
    config.input_device_index = 3;
    config.output_device_index = 4;
    config.input_device_channels = 2;
    config.output_device_channels = 2;
    let validated = ValidatedStreamConfig::from_ffi(Some(config)).unwrap();

    assert_eq!(validated.sample_rate_hz, 96_000);
    assert_eq!(validated.maximum_frame_count, 1_024);
    assert_eq!(validated.input_device_index, 3);
    assert_eq!(validated.output_device_index, 4);
    assert_eq!(validated.input_channels, 2);
    assert_eq!(validated.output_channels, 2);
}

#[test]
fn function_table_exercises_f32_stream_lifecycle_without_hardware() {
    let mut world = world();
    let (status, stream) = world.create(TEST_FUNCTIONS, Some(stream_config()));
    assert_eq!(status, AUDIO_OK);
    let mut stream = stream.expect("created stream");
    assert_eq!(world.pa.initialize_count, 1);
    assert_eq!(world.pa.open_count, 2);
    assert_ne!(stream.capture_handle, stream.playback_handle);
    assert_eq!(world.pa.input_format, PA_FLOAT_32);
    assert_eq!(world.pa.output_format, PA_FLOAT_32);
    assert_eq!(world.pa.input_latency, 0.004);
    assert_eq!(world.pa.output_latency, 0.006);
    assert_eq!(f64::from(world.pa.sample_rate), 48_000.0);
    assert_eq!(world.pa.frames_per_buffer, 2);

    assert_eq!(world.stream_start(&mut stream), AUDIO_OK);
    let input = [0.123_456_7, -0.625];
    let mut output = [0.0; 2];
    assert_eq!(world.capture_callback(&mut stream, Some(&input), 2, 0), PA_CONTINUE);
    assert_eq!(world.playback_callback(&mut stream, Some(&mut output), 2, 0), PA_CONTINUE);
    // Playback starts on time; initial capture priming is explicit silence.
    assert_eq!(output, [0.0; 2]);
    let stats = stream.stats();
    assert_eq!(stats.capture_callback_count, 1);
    assert_eq!(stats.capture_startup_wait_frames, 2);
    assert_eq!(stats.capture_ring_missing_frames, 0);
    assert_eq!(world.stream_stop(&mut stream), AUDIO_OK);
    assert!(world.stream_destroy(stream).is_none());

    assert_eq!(world.pa.start_count, 2);
    assert_eq!(world.pa.stop_count, 2);
    assert_eq!(world.pa.close_count, 2);
    assert_eq!(world.pa.terminate_count, 1);
}

#[test]
fn function_table_releases_failed_device_initialization() {
    let mut world = world();
    world.pa.device_count = -1;
    let (status, stream) = world.create(TEST_FUNCTIONS, Some(stream_config()));
    assert_eq!(status, AUDIO_PORTAUDIO_ERROR);
    assert!(stream.is_none());
    assert_eq!(world.pa.initialize_count, 1);
    assert_eq!(world.pa.terminate_count, 1);
    assert_eq!(world.pa.open_count, 0);
}

#[test]
fn portaudio_runtime_reuses_matching_functions_and_rejects_mismatches() {
    let mut world = world();
    let config = stream_config();
    let first = world.fake_stream(&config);
    world.pa.device_count = 4;
    let mut second_config = config;
    second_config.input_device_index = 2;
    second_config.output_device_index = 3;
    let second = world.fake_stream(&second_config);

    assert_eq!(world.pa.initialize_count, 1);
    assert_eq!(world.pa.open_count, 4);
    let runtime = &mut world.process.runtime;
    assert!(!runtime.needs_initialize());
    assert_eq!(
        portaudio_acquire(runtime, ALTERNATE_FUNCTIONS, PA_NO_ERROR),
        Err(AUDIO_PORTAUDIO_ERROR)
    );
    assert!(!portaudio_release(runtime, ALTERNATE_FUNCTIONS));

    assert!(world.stream_destroy(first).is_none());
    assert_eq!(world.pa.terminate_count, 0);
    assert!(world.stream_destroy(second).is_none());
    assert!(!portaudio_release(&mut world.process.runtime, TEST_FUNCTIONS));
    assert_eq!(world.pa.terminate_count, 1);
    assert_eq!(world.pa.close_count, 4);
}

#[test]
fn stream_create_exclusively_leases_resolved_devices_until_destroy() {
    let mut world = world();
    let config = stream_config();
    let first = world.fake_stream(&config);
    let mut conflicting_config = stream_config();
    conflicting_config.output_device_index = 0;

    let (status, conflicting) = world.create(TEST_FUNCTIONS, Some(conflicting_config));
    assert_eq!(status, AUDIO_DEVICE_BUSY);
    assert!(conflicting.is_none());
    assert_eq!(world.pa.open_count, 2);

    world.pa.device_count = 3;
    let mut output_conflict = stream_config();
    output_conflict.input_device_index = 2;
    output_conflict.output_device_index = 1;
    let (status, conflicting) = world.create(TEST_FUNCTIONS, Some(output_conflict));
    assert_eq!(status, AUDIO_DEVICE_BUSY);
    assert!(conflicting.is_none());
    assert_eq!(world.pa.open_count, 2);

    assert!(world.stream_destroy(first).is_none());
    let replacement = world.fake_stream(&config);
    assert!(world.stream_destroy(replacement).is_none());
}

#[test]
fn stream_create_releases_the_device_lease_after_an_open_failure() {
    let mut world = world();
    let config = stream_config();
    world.pa.open_result = -12;
    let (status, stream) = world.create(TEST_FUNCTIONS, Some(config));
    assert_eq!(status, AUDIO_PORTAUDIO_ERROR);
    assert!(stream.is_none());

    world.pa.open_result = PA_NO_ERROR;
    let recovered = world.fake_stream(&config);
    assert!(world.stream_destroy(recovered).is_none());
}

#[test]
fn device_lease_counts_distinct_devices_and_returns_them() {
    let mut process = AdapterProcess::new();
    let single_device =
        DeviceLease::acquire(&mut process.leases, 8, 8).expect("reserve one physical device");
    assert_eq!(single_device.count(), 1);
    assert_eq!(
        DeviceLease::acquire(&mut process.leases, 8, 9),
        Err(AUDIO_DEVICE_BUSY)
    );
    assert!(!process.leases.claimed_devices.contains(&9));
    single_device.release(&mut process.leases);

    let recovered = DeviceLease::acquire(&mut process.leases, 8, 9).expect("reserve two devices");
    assert_eq!(recovered.count(), 2);
    assert_eq!(process.leases.claimed_devices.len(), 2);
    recovered.release(&mut process.leases);
    assert!(process.leases.claimed_devices.is_empty());
}

#[test]
fn portaudio_runtime_reports_initialization_failure_without_a_reference() {
    let mut process = AdapterProcess::new();
    assert!(process.runtime.needs_initialize());
    assert_eq!(
        portaudio_acquire(&mut process.runtime, TEST_FUNCTIONS, -101),
        Err(AUDIO_PORTAUDIO_ERROR)
    );
    assert!(!portaudio_release(&mut process.runtime, TEST_FUNCTIONS));
    assert_eq!(process.runtime.references, 0);

    let mut world = world();
    world.pa.initialize_result = -101;
    let (status, stream) = world.create(TEST_FUNCTIONS, Some(stream_config()));
    assert_eq!(status, AUDIO_PORTAUDIO_ERROR);
    assert!(stream.is_none());
    assert_eq!(world.pa.initialize_count, 1);
    assert_eq!(world.pa.terminate_count, 0);
}

#[test]
fn portaudio_runtime_initializes_first_and_terminates_last() {
    let mut process = AdapterProcess::new();
    assert_eq!(portaudio_acquire(&mut process.runtime, TEST_FUNCTIONS, PA_NO_ERROR), Ok(()));
    assert_eq!(portaudio_acquire(&mut process.runtime, TEST_FUNCTIONS, PA_NO_ERROR), Ok(()));
    assert_eq!(process.runtime.references, 2);
    assert!(!portaudio_release(&mut process.runtime, TEST_FUNCTIONS));
    assert!(portaudio_release(&mut process.runtime, TEST_FUNCTIONS));
    assert_eq!(process.runtime, AdapterProcess::new().runtime);
}

#[test]
fn resolve_device_uses_default_low_latency_and_explicit_indices() {
    let inventory = FakePortAudio::new().inventory();
    let input = resolve_device(&inventory, DEFAULT_DEVICE, 1, true).unwrap();
    let output = resolve_device(&inventory, DEFAULT_DEVICE, 2, false).unwrap();
    let explicit = resolve_device(&inventory, 0, 1, false).unwrap();

    assert_eq!(input.device, 0);
    assert_eq!(input.suggested_latency, 0.004);
    assert_eq!(input.channel_count, 1);
    assert_eq!(output.device, 1);
    assert_eq!(output.suggested_latency, 0.006);
    assert_eq!(output.channel_count, 2);
    assert_eq!(explicit.device, 0);
    assert_eq!(explicit.sample_format, PA_FLOAT_32);
}

#[test]
fn resolve_device_rejects_unavailable_or_unsupported_devices() {
    let with = |change: fn(&mut FakePortAudio)| {
        let mut pa = FakePortAudio::new();
        change(&mut pa);
        pa.inventory()
    };
    assert!(matches!(
        resolve_device(&with(|pa| pa.device_count = -1), DEFAULT_DEVICE, 1, true),
        Err(AUDIO_PORTAUDIO_ERROR)
    ));
    assert!(matches!(
        resolve_device(&with(|pa| pa.default_input_device = PA_NO_DEVICE), DEFAULT_DEVICE, 1, true),
        Err(AUDIO_UNSUPPORTED)
    ));
    let inventory = with(|_| {});
    assert!(matches!(resolve_device(&inventory, 2, 1, true), Err(AUDIO_UNSUPPORTED)));
    assert!(matches!(resolve_device(&inventory, -2, 1, false), Err(AUDIO_UNSUPPORTED)));
    assert!(matches!(
        resolve_device(&with(|pa| pa.device_info_available = false), 0, 1, true),
        Err(AUDIO_PORTAUDIO_ERROR)
    ));
    assert!(matches!(
        resolve_device(&with(|pa| pa.max_input_channels = 0), 0, 1, true),
        Err(AUDIO_UNSUPPORTED)
    ));
    assert!(matches!(
        resolve_device(&with(|pa| pa.max_output_channels = 1), 1, 2, false),
        Err(AUDIO_UNSUPPORTED)
    ));
}

#[test]
fn callback_preserves_f32_samples_and_splits_oversized_blocks() {
    let mut stream = test_stream(2, 1, 1, copy_input_to_output);
    let input = [0.123_456_7, -0.75, 1.0];
    let mut output = [0.0; 3];

    let result = stream.process_callback(
        Some(&input),
        Some(&mut output),
        input.len(),
        PA_INPUT_OVERFLOW | PA_OUTPUT_UNDERFLOW,
    );

    assert_eq!(result, PA_CONTINUE);
    assert_eq!(output, input);
    let stats = &stream.control.stats;
    assert_eq!(stats.oversized_callback_count, 1);
    assert_eq!(stats.callback_count, 1);
    assert_eq!(stats.callback_frame_count, 3);
    assert_eq!(stats.input_overflow_count, 1);
    assert_eq!(stats.output_underflow_count, 1);
    assert_eq!(stats.input_clip_sample_count, 1);
    assert_eq!(stats.output_clip_sample_count, 1);
}

#[test]
fn callback_failure_silences_the_current_device_block() {
    let mut stream = test_stream(2, 2, 2, fail_tick);
    let input = [0.25, -0.25, 0.5, -0.5];
    let mut output = [1.0; 4];

    let result = stream.process_callback(Some(&input), Some(&mut output), 2, 0);

    assert_eq!(result, PA_ABORT);
    assert_eq!(output, [0.0; 4]);
    assert_eq!(stream.control.stats.native_tick_failure_count, 1);
}

#[test]
fn callback_failure_silences_unprocessed_oversized_output() {
    let mut stream = test_stream(2, 1, 1, fail_on_second_tick);
    let input = [0.25, -0.5, 0.75];
    let mut output = [1.0; 3];

    let result = stream.process_callback(Some(&input), Some(&mut output), 3, 0);

    assert_eq!(result, PA_ABORT);
    assert_eq!(output, [0.25, -0.5, 0.0]);
    assert_eq!(stream.context, 2);
}

#[test]
fn callback_timing_uses_the_previous_period_and_strict_lateness_threshold() {
    let mut shared = SharedStats::default();
    let mut stats = StreamStats::new(0);
    shared.snapshot(&mut stats);
    assert_eq!(stats.callback_late_start_tolerance_ns, 1_000_000);
    assert_eq!(stats.callback_last_duration_ns, 0);
    assert_eq!(stats.callback_max_duration_ns, 0);
    assert_eq!(stats.callback_last_start_delay_ns, 0);
    assert_eq!(stats.callback_max_start_delay_ns, 0);
    assert_eq!(stats.callback_late_start_count, 0);
    assert_eq!(stats.last_input_xrun_monotonic_ns, 0);
    assert_eq!(stats.last_output_xrun_monotonic_ns, 0);
    assert_eq!(stats.callback_clock_error_count, 0);

    // A first callback has no arrival baseline. The next callback uses this
    // block's 20 ms duration, not its own shorter 5 ms duration.
    shared.callback_begin(100_000_000, 20_000_000, 0);
    shared.callback_begin(121_000_000, 5_000_000, 0);
    shared.snapshot(&mut stats);
    assert_eq!(stats.callback_last_start_delay_ns, 1_000_000);
    assert_eq!(stats.callback_late_start_count, 0);
    shared.callback_begin(127_000_001, 10_000_000, 0);
    shared.snapshot(&mut stats);
    assert_eq!(stats.callback_last_start_delay_ns, 1_000_001);
    assert_eq!(stats.callback_max_start_delay_ns, 1_000_001);
    assert_eq!(stats.callback_late_start_count, 1);

    // On-time and early starts clear the latest delay, not its historical max.
    shared.callback_begin(137_000_001, 20_000_000, 0);
    shared.callback_begin(140_000_000, 20_000_000, 0);
    shared.snapshot(&mut stats);
    assert_eq!(stats.callback_last_start_delay_ns, 0);
    assert_eq!(stats.callback_max_start_delay_ns, 1_000_001);
    shared.callback_begin(300_000_000, 20_000_000, 0);
    shared.snapshot(&mut stats);
    assert_eq!(stats.callback_last_start_delay_ns, 140_000_000);
    assert_eq!(stats.callback_max_start_delay_ns, 140_000_000);
    assert_eq!(stats.callback_late_start_count, 2);

    // A zero-length predecessor has no expected audio cadence.
    shared.callback_begin(320_000_000, 0, 0);
    shared.callback_begin(900_000_000, 20_000_000, 0);
    shared.snapshot(&mut stats);
    assert_eq!(stats.callback_last_start_delay_ns, 0);
    assert_eq!(stats.callback_late_start_count, 2);
}

#[test]
fn callback_duration_tracks_extrema_and_failed_clocks_reset_the_arrival_baseline() {
    let mut shared = SharedStats::default();
    let mut stats = StreamStats::new(0);
    shared.callback_begin(100_000_000, 20_000_000, 0);
    shared.callback_end(100_000_000, 102_000_000);
    shared.callback_end(120_000_000, 121_000_000);
    shared.snapshot(&mut stats);
    assert_eq!(stats.callback_last_duration_ns, 1_000_000);
    assert_eq!(stats.callback_max_duration_ns, 2_000_000);
    shared.callback_end(140_000_000, 143_000_000);
    shared.callback_end(150_000_000, 149_000_000);
    shared.snapshot(&mut stats);
    assert_eq!(stats.callback_last_duration_ns, 0);
    assert_eq!(stats.callback_max_duration_ns, 3_000_000);

    shared.callback_begin(0, 20_000_000, 0);
    shared.callback_end(0, 0);
    shared.callback_end(0, 160_000_000);
    shared.callback_end(160_000_000, 0);
    shared.callback_begin(1_000_000_000, 20_000_000, 0);
    shared.snapshot(&mut stats);
    assert_eq!(stats.callback_clock_error_count, 3);
    assert_eq!(stats.callback_last_duration_ns, 0);
    assert_eq!(stats.callback_max_duration_ns, 3_000_000);
    assert_eq!(stats.callback_last_start_delay_ns, 0);
    assert_eq!(stats.callback_late_start_count, 0);
    // A backward test clock cannot underflow into an enormous delay.
    shared.callback_begin(900_000_000, 20_000_000, 0);
    shared.snapshot(&mut stats);
    assert_eq!(stats.callback_last_start_delay_ns, 0);
}

#[test]
fn callback_xrun_timestamps_are_independent_and_ignore_failed_clock_reads() {
    let mut shared = SharedStats::default();
    let mut stats = StreamStats::new(0);
    shared.callback_begin(100_000_000, 20_000_000, PA_INPUT_OVERFLOW);
    shared.snapshot(&mut stats);
    assert_eq!(stats.last_input_xrun_monotonic_ns, 100_000_000);
    assert_eq!(stats.last_output_xrun_monotonic_ns, 0);
    shared.callback_begin(120_000_000, 20_000_000, PA_OUTPUT_UNDERFLOW);
    shared.snapshot(&mut stats);
    assert_eq!(stats.last_input_xrun_monotonic_ns, 100_000_000);
    assert_eq!(stats.last_output_xrun_monotonic_ns, 120_000_000);
    shared.callback_begin(140_000_000, 20_000_000, PA_INPUT_OVERFLOW | PA_OUTPUT_UNDERFLOW);
    shared.callback_begin(160_000_000, 20_000_000, 0);
    shared.callback_begin(0, 20_000_000, PA_INPUT_OVERFLOW | PA_OUTPUT_UNDERFLOW);
    shared.snapshot(&mut stats);
    assert_eq!(stats.last_input_xrun_monotonic_ns, 140_000_000);
    assert_eq!(stats.last_output_xrun_monotonic_ns, 140_000_000);
    assert_eq!(stats.callback_clock_error_count, 1);
}

#[test]
fn monotonic_clock_conversion_and_failures_are_deterministic() {
    let known = Timespec { seconds: 123, nanoseconds: 456_789_012 };
    assert_eq!(monotonic_ns(0, known), 123_456_789_012);
    assert_eq!(monotonic_ns(-1, known), 0);
    assert_eq!(monotonic_ns(0, Timespec { seconds: 0, nanoseconds: 1 }), 1);
}

#[test]
fn stream_stats_preserve_original_and_future_caller_allocation_bounds() {
    assert_eq!(STREAM_STATS_V1_SIZE, 144);
    assert_eq!(STREAM_STATS_TIMING_SIZE, 216);
    assert_eq!(STREAM_STATS_SIZE, 264);
    let mut stream = test_stream(2, 2, 2, copy_input_to_output);
    stream.control.stats.callback_count = 17;
    stream.control.stats.record_portaudio_error(-321);
    stream.control.stats.callback_end(1, 987_655);
    let read = |size: u32| {
        stream_get_stats(size, &stream.control.stats, stream.snapshot()).unwrap()
    };

    let (timing, copied) = read(STREAM_STATS_TIMING_SIZE);
    assert_eq!(copied, STREAM_STATS_TIMING_SIZE);
    assert_eq!(timing.callback_last_duration_ns, 987_654);

    let (legacy, copied) = read(STREAM_STATS_V1_SIZE);
    assert_eq!(copied, STREAM_STATS_V1_SIZE);
    assert_eq!(legacy.struct_size, STREAM_STATS_V1_SIZE);
    assert_eq!(legacy.callback_count, 17);
    assert_eq!(legacy.last_portaudio_error, -321);

    let (future, copied) = read(STREAM_STATS_SIZE + 32);
    assert_eq!(copied, STREAM_STATS_SIZE);
    assert_eq!(future.struct_size, STREAM_STATS_SIZE + 32);
    assert_eq!(future.callback_count, 17);
    assert_eq!(future.callback_last_duration_ns, 987_654);
    assert_eq!(future.callback_late_start_tolerance_ns, 1_000_000);
}

#[test]
fn real_callback_records_duration_and_xruns_on_success_and_native_failure() {
    for (tick, expected) in [(copy_input_to_output as Tick, PA_CONTINUE), (fail_tick, PA_ABORT)] {
        let mut world = world();
        let mut stream = test_stream(2, 1, 2, tick);
        let input = [0.25_f32, -0.25, 0.5, -0.5];
        let mut output = [1.0_f32; 4];
        let before = world.now();
        assert_eq!(
            world.capture_callback(&mut stream, Some(&input[..2]), 2, PA_INPUT_OVERFLOW),
            PA_CONTINUE
        );
        let result = world.playback_callback(
            &mut stream,
            Some(&mut output),
            2,
            PA_INPUT_OVERFLOW | PA_OUTPUT_UNDERFLOW,
        );
        let after = world.now();
        assert_eq!(result, expected);
        let stats = stream.stats();
        assert!(stats.callback_last_duration_ns > 0);
        assert_eq!(stats.callback_max_duration_ns, stats.callback_last_duration_ns);
        assert!(stats.callback_last_duration_ns <= after - before);
        assert_eq!(stats.callback_last_start_delay_ns, 0);
        assert_eq!(stats.callback_late_start_count, 0);
        assert_eq!(stats.callback_clock_error_count, 0);
        assert!((before..=after).contains(&stats.last_input_xrun_monotonic_ns));
        assert!((stats.last_input_xrun_monotonic_ns..=after)
            .contains(&stats.last_output_xrun_monotonic_ns));
        assert_eq!(stats.input_overflow_count, 1);
        assert_eq!(stats.output_underflow_count, 1);
        assert_eq!(stats.native_tick_failure_count, u64::from(expected == PA_ABORT));
        assert_eq!(output, [0.0; 4]);
        assert_eq!(stats.capture_callback_count, 1);
        assert_eq!(stats.capture_startup_wait_frames, 2);
    }
}

#[test]
fn stats_report_capture_queue_and_device_errors() {
    let mut stream = test_stream(2, 2, 2, copy_input_to_output);
    stream.control.stats.record_portaudio_error(-321);
    let stats = stream.stats();
    assert_eq!(stats.device_error_count, 1);
    assert_eq!(stats.last_portaudio_error, -321);
    assert_eq!(stats.input_queue_capacity_frames, 512);
    assert_eq!(stats.capture_ring_target_frames, 98);
    assert_eq!(stats.input_queue_occupancy_frames, 0);
    assert_eq!(stats.output_queue_capacity_frames, 0);
    assert_eq!(stats.output_queue_occupancy_frames, 0);
    assert_eq!(stats.output_queue_dropped_frame_count, 0);
}

#[test]
fn stream_timing_reports_actual_portaudio_values_and_clears_failed_output() {
    let mut world = world();
    let mut stream = world.fake_stream(&stream_config());
    let mut timing = empty_timing();

    assert_eq!(world.stream_timing(&mut stream, &mut timing), AUDIO_OK);
    assert_eq!(timing.abi_version, ABI_VERSION);
    assert_eq!(f64::from_bits(timing.input_latency_seconds), 0.008);
    assert_eq!(f64::from_bits(timing.output_latency_seconds), 0.012);
    assert_eq!(f64::from_bits(timing.sample_rate_hz), 47_999.5);

    let timing_size = timing.struct_size;
    timing.abi_version = 99;
    timing.input_latency_seconds = 1.0_f64.to_bits();
    timing.output_latency_seconds = 1.0_f64.to_bits();
    timing.sample_rate_hz = 1.0_f64.to_bits();
    world.pa.stream_info_available = false;
    assert_eq!(world.stream_timing(&mut stream, &mut timing), AUDIO_PORTAUDIO_ERROR);
    assert_eq!(timing.struct_size, timing_size);
    assert_eq!(timing.abi_version, 0);
    assert_eq!(f64::from_bits(timing.input_latency_seconds), 0.0);
    assert_eq!(f64::from_bits(timing.output_latency_seconds), 0.0);
    assert_eq!(f64::from_bits(timing.sample_rate_hz), 0.0);

    let stats = stream.stats();
    assert_eq!(stats.device_error_count, 1);
    assert_eq!(stats.last_portaudio_error, PA_INTERNAL_ERROR);
    assert!(world.stream_destroy(stream).is_none());
}

#[test]
fn stream_timing_accepts_portaudio_alsa_zero_struct_version() {
    let mut world = world();
    let mut stream = world.fake_stream(&stream_config());
    world.pa.stream_info.struct_version = 0;
    let mut timing = empty_timing();
    assert_eq!(world.stream_timing(&mut stream, &mut timing), AUDIO_OK);
    assert_eq!(timing.abi_version, ABI_VERSION);
    assert_eq!(f64::from_bits(timing.input_latency_seconds), 0.008);
    assert_eq!(f64::from_bits(timing.output_latency_seconds), 0.012);
    assert_eq!(f64::from_bits(timing.sample_rate_hz), 47_999.5);
    let stats = stream.stats();
    assert_eq!(stats.device_error_count, 0);
    assert_eq!(stats.last_portaudio_error, PA_NO_ERROR);
    assert!(world.stream_destroy(stream).is_none());
}

#[test]
fn stream_timing_rejects_invalid_arguments_and_malformed_portaudio_data() {
    let mut world = world();
    let mut stream = world.fake_stream(&stream_config());
    let mut timing = empty_timing();
    timing.struct_size = 0;
    assert_eq!(world.stream_timing(&mut stream, &mut timing), AUDIO_INVALID_ARGUMENT);

    let mut reject = |mutate: fn(&mut Info)| {
        world.pa.stream_info = fake_stream_info();
        mutate(&mut world.pa.stream_info);
        timing = StreamTiming {
            struct_size: STREAM_TIMING_SIZE,
            abi_version: 99,
            input_latency_seconds: 1.0_f64.to_bits(),
            output_latency_seconds: 1.0_f64.to_bits(),
            sample_rate_hz: 1.0_f64.to_bits(),
        };
        assert_eq!(world.stream_timing(&mut stream, &mut timing), AUDIO_PORTAUDIO_ERROR);
        assert_eq!(timing.struct_size, STREAM_TIMING_SIZE);
        assert_eq!(timing.abi_version, 0);
        assert_eq!(f64::from_bits(timing.input_latency_seconds), 0.0);
        assert_eq!(f64::from_bits(timing.output_latency_seconds), 0.0);
        assert_eq!(f64::from_bits(timing.sample_rate_hz), 0.0);
    };
    reject(|info| info.struct_version = -1);
    reject(|info| info.input_latency = f64::NAN);
    reject(|info| info.output_latency = f64::INFINITY);
    reject(|info| info.sample_rate = f64::NAN);
    reject(|info| info.input_latency = -0.001);
    reject(|info| info.output_latency = -0.001);
    reject(|info| info.sample_rate = 0.0);
    reject(|info| info.sample_rate = -1.0);
    assert!(world.stream_destroy(stream).is_none());
}

#[test]
fn stream_timing_accepts_negative_zero_latency() {
    let mut world = world();
    let mut stream = world.fake_stream(&stream_config());
    world.pa.stream_info.input_latency = -0.0;
    let mut timing = empty_timing();
    assert_eq!(world.stream_timing(&mut stream, &mut timing), AUDIO_OK);
    assert_eq!(timing.input_latency_seconds, (-0.0_f64).to_bits());
    assert!(world.stream_destroy(stream).is_none());
}

#[test]
fn stream_create_rejects_invalid_abi_before_opening_a_device() {
    let mut world = world();
    let (status, stream) = world.create(TEST_FUNCTIONS, None);
    assert_eq!(status, AUDIO_INVALID_ARGUMENT);
    assert!(stream.is_none());
    let mut config = stream_config();
    config.struct_size = STREAM_CONFIG_SIZE - 1;
    assert_eq!(world.create(TEST_FUNCTIONS, Some(config)).0, AUDIO_INVALID_ARGUMENT);
    assert_eq!(world.pa.initialize_count, 0);
}

#[test]
fn stream_create_releases_runtime_after_all_device_and_open_failures() {
    let mut world = world();
    let config = stream_config();

    world.pa.initialize_result = -11;
    let (status, stream) = world.create(TEST_FUNCTIONS, Some(config));
    assert_eq!(status, AUDIO_PORTAUDIO_ERROR);
    assert!(stream.is_none());
    assert_eq!(world.pa.initialize_count, 1);
    assert_eq!(world.pa.terminate_count, 0);

    world.reset();
    world.pa.default_input_device = PA_NO_DEVICE;
    assert_eq!(world.create(TEST_FUNCTIONS, Some(config)).0, AUDIO_UNSUPPORTED);
    assert_eq!(
        (world.pa.initialize_count, world.pa.terminate_count, world.pa.open_count),
        (1, 1, 0)
    );

    world.reset();
    world.pa.default_output_device = PA_NO_DEVICE;
    assert_eq!(world.create(TEST_FUNCTIONS, Some(config)).0, AUDIO_UNSUPPORTED);
    assert_eq!(
        (world.pa.initialize_count, world.pa.terminate_count, world.pa.open_count),
        (1, 1, 0)
    );

    world.reset();
    world.pa.open_result = -12;
    let (status, stream) = world.create(TEST_FUNCTIONS, Some(config));
    assert_eq!(status, AUDIO_PORTAUDIO_ERROR);
    assert!(stream.is_none());
    assert_eq!(
        (world.pa.initialize_count, world.pa.terminate_count, world.pa.open_count),
        (1, 1, 1)
    );
    assert_eq!(world.pa.close_count, 0);
}

#[test]
fn stream_create_reports_a_ring_that_cannot_be_made() {
    for (code, expected) in [(-2, AUDIO_NO_MEMORY), (-3, AUDIO_PORTAUDIO_ERROR)] {
        let mut world = world();
        world.pa.ring_result = code;
        let (status, stream) = world.create(TEST_FUNCTIONS, Some(stream_config()));
        assert_eq!(status, expected);
        assert!(stream.is_none());
        assert_eq!(
            (world.pa.initialize_count, world.pa.terminate_count, world.pa.open_count),
            (1, 1, 0)
        );
        assert!(world.process.leases.claimed_devices.is_empty());
        assert_eq!(world.process.runtime.references, 0);
    }
}

#[test]
fn stream_start_inherits_highest_fifo_and_restores_each_caller_policy() {
    let mut world = world();
    for (policy, priority, maximum) in [(0, 0, 99), (2, 10, 99), (1, 99, 99), (2, 10, 73)] {
        world.reset();
        world.sched.policy = policy;
        world.sched.priority = priority;
        world.sched.maximum = maximum;
        let mut stream = world.fake_stream(&stream_config());
        assert_eq!(world.stream_start(&mut stream), AUDIO_OK);
        assert_eq!(world.sched.start_schedule, Some((SCHED_FIFO, maximum)));
        assert_eq!((world.sched.policy, world.sched.priority), (policy, priority));
        assert_eq!(world.sched.set_requests, [(SCHED_FIFO, maximum), (policy, priority)]);
        assert_eq!(
            world.sched.events,
            ["self", "get", "max", "set", "start", "start", "set"]
        );
        // An already-running callback needs no second scheduling or start operation.
        assert_eq!(world.stream_start(&mut stream), AUDIO_OK);
        assert_eq!(world.sched.set_requests.len(), 2);
        assert_eq!(world.pa.start_count, 2);
        assert!(world.stream_destroy(stream).is_none());
    }
}

#[test]
fn independent_streams_reject_stereo_capture_and_unmatched_rate_before_open() {
    let mut world = world();
    for (channels, rate) in [(2, 48_000), (1, 44_100)] {
        let mut config = stream_config();
        config.input_device_channels = channels;
        config.native_sample_rate_hz = rate;
        let (status, stream) = world.create(TEST_FUNCTIONS, Some(config));
        assert_eq!(status, AUDIO_UNSUPPORTED);
        assert!(stream.is_none());
    }
    assert_eq!(world.pa.initialize_count, 0);
}

#[test]
fn second_endpoint_open_and_start_failures_release_or_quiesce_capture() {
    let mut world = world();
    world.pa.open_results.extend([0, -41]);
    let (status, stream) = world.create(TEST_FUNCTIONS, Some(stream_config()));
    assert_eq!(status, AUDIO_PORTAUDIO_ERROR);
    assert!(stream.is_none());
    assert_eq!(
        (world.pa.open_count, world.pa.close_count, world.pa.terminate_count),
        (2, 1, 1)
    );
    let mut stream = world.fake_stream(&stream_config());
    world.pa.start_results.extend([0, -42]);
    assert_eq!(world.stream_start(&mut stream), AUDIO_PORTAUDIO_ERROR);
    assert_eq!(world.pa.start_count, 2);
    assert_eq!(world.pa.abort_count, 1);
    assert!(world.pa.endpoint_active.iter().all(|active| *active == 0));
    assert_eq!((world.sched.policy, world.sched.priority), (2, 10));
    assert_eq!(world.stream_start(&mut stream), AUDIO_OK);
    assert!(world.stream_destroy(stream).is_none());
}

#[test]
fn inactive_started_endpoint_is_joined_and_capture_queue_reset_before_restart() {
    let mut world = world();
    let mut stream = world.fake_stream(&stream_config());
    assert_eq!(world.stream_start(&mut stream), AUDIO_OK);
    let accepted = stream.fifo.push(&bits(&[0.5; 2]));
    assert_eq!(CaptureRing::push(0, accepted), Ok(2));
    // A callback may return PA_ABORT before control notices it has finished.
    world.pa.force_active(0);
    assert_eq!(world.stream_start(&mut stream), AUDIO_OK);
    assert_eq!(world.pa.stop_count, 2);
    assert_eq!(stream.snapshot().unwrap().occupancy_frames, 0);
    assert!(world.stream_destroy(stream).is_none());
}

#[test]
fn capture_can_publish_while_native_tick_runs_in_disjoint_playback_context() {
    let mut world = world();
    let mut stream = test_stream(960, 1, 2, copy_input_to_output);
    let mut output = bits(&[1.0; 1920]);
    let mut callback = RenderCallback::begin(
        &stream.playback,
        &mut stream.control.stats,
        &mut output,
        960,
        0,
    );
    assert!(matches!(callback.step(), RenderStep::Fill(chunk) if chunk.frames == 960));
    assert_eq!(stream.pull(960), Ok(0));
    callback.prepared(&mut stream.playback, &mut stream.control.stats, true);
    assert!(matches!(callback.step(), RenderStep::Tick(chunk) if chunk.frames == 960));

    let input = [1.0_f32; 960];
    assert_eq!(
        world.capture_callback(&mut stream, Some(&input), 960, PA_INPUT_OVERFLOW),
        PA_CONTINUE
    );
    let stats = stream.stats();
    assert_eq!(stats.capture_callback_count, 1);
    assert_eq!(stats.input_clip_sample_count, 960);
    assert_eq!(f32::from_bits(stats.input_peak_bits), 1.0);
    assert_eq!(f32::from_bits(stats.input_rms_bits), 1.0);
    assert_eq!(stats.input_queue_occupancy_frames, 960);
    assert_eq!(stats.capture_startup_wait_frames, 960);
    assert_eq!(stats.capture_ring_missing_frames, 0);

    stream.playback.canonical_output.fill(0);
    callback.ticked(
        &mut stream.playback,
        &mut stream.control.stats,
        &mut output,
        0,
        &average,
        &add_square,
    );
    assert_eq!(callback.step(), RenderStep::Finished);
    assert_eq!(
        callback.finish(&stream.playback, &mut stream.control.stats, &root),
        PA_CONTINUE
    );
    assert_eq!(output, [0; 1920]);
}

#[test]
fn stream_start_rejects_scheduling_setup_failures_before_callbacks_start() {
    let mut world = world();
    for failure in 0..4 {
        world.reset();
        match failure {
            0 => world.sched.get_result = 22,
            1 => world.sched.maximum = -1,
            2 => world.sched.maximum = 0,
            _ => world.sched.set_results.push_back(1), // EPERM from pthread_setschedparam.
        }
        let mut stream = world.fake_stream(&stream_config());
        assert_eq!(world.stream_start(&mut stream), AUDIO_PORTAUDIO_ERROR);
        assert_eq!(
            (world.pa.start_count, world.pa.abort_count, world.pa.active),
            (0, 0, 0)
        );
        assert_eq!((world.sched.policy, world.sched.priority), (2, 10));
        assert_eq!(world.sched.start_schedule, None);
        let expected: &[&str] = match failure {
            0 => &["self", "get"],
            1 | 2 => &["self", "get", "max"],
            _ => &["self", "get", "max", "set"],
        };
        assert_eq!(world.sched.events, expected);
        let stats = stream.stats();
        assert_eq!(stats.device_error_count, 1);
        assert_eq!(stats.last_portaudio_error, PA_INTERNAL_ERROR);
        assert!(world.stream_destroy(stream).is_none());
    }
}

#[test]
fn stream_start_reports_a_ring_that_cannot_be_locked_or_reset() {
    let mut world = world();
    let mut stream = world.fake_stream(&stream_config());
    stream.ring_locked = true;
    assert_eq!(world.stream_start(&mut stream), AUDIO_PORTAUDIO_ERROR);
    stream.ring_locked = false;
    world.pa.ring_result = -2;
    assert_eq!(world.stream_start(&mut stream), AUDIO_PORTAUDIO_ERROR);
    assert_eq!(world.pa.start_count, 0);
    assert!(world.sched.events.is_empty());
    world.pa.ring_result = 0;
    assert_eq!(world.stream_start(&mut stream), AUDIO_OK);
    assert!(world.stream_destroy(stream).is_none());
}

#[test]
fn failed_portaudio_start_still_restores_the_caller() {
    let mut world = world();
    let mut stream = world.fake_stream(&stream_config());
    world.pa.start_result = -22;
    assert_eq!(world.stream_start(&mut stream), AUDIO_PORTAUDIO_ERROR);
    assert_eq!((world.sched.policy, world.sched.priority), (2, 10));
    assert_eq!(world.sched.start_schedule, Some((SCHED_FIFO, 99)));
    assert_eq!(world.sched.set_requests, [(SCHED_FIFO, 99), (2, 10)]);
    assert_eq!(world.sched.events, ["self", "get", "max", "set", "start", "set"]);
    assert_eq!(world.pa.abort_count, 0);
    assert_eq!(stream.stats().last_portaudio_error, -22);
    assert!(world.stream_destroy(stream).is_none());
}

#[test]
fn scheduling_restore_failure_aborts_a_started_stream_and_never_succeeds() {
    let mut world = world();
    for (start_result, abort_result) in [(0, 0), (0, -25), (-22, 0)] {
        world.reset();
        let mut stream = world.fake_stream(&stream_config());
        world.pa.start_result = start_result;
        world.pa.abort_result = abort_result;
        world.sched.set_results.extend([0, 1]);
        assert_eq!(world.stream_start(&mut stream), AUDIO_PORTAUDIO_ERROR);
        assert_eq!(world.sched.set_requests, [(SCHED_FIFO, 99), (2, 10)]);
        if start_result == 0 {
            assert_eq!(
                world.sched.events,
                ["self", "get", "max", "set", "start", "start", "set", "abort", "abort"]
            );
        } else {
            assert_eq!(world.sched.events, ["self", "get", "max", "set", "start", "set"]);
        }
        assert_eq!(world.pa.abort_count, 2 * u32::from(start_result == 0));
        assert_eq!(world.pa.active, i32::from(start_result == 0 && abort_result != 0));
        let stats = stream.stats();
        assert_eq!(
            stats.device_error_count,
            if start_result == 0 && abort_result != 0 { 3 } else { 1 }
        );
        assert_eq!(stats.last_portaudio_error, PA_INTERNAL_ERROR);
        assert!(world.stream_destroy(stream).is_none());
    }
}

#[test]
fn stream_control_reports_errors_and_is_idempotent() {
    let mut world = world();
    let mut stream = world.fake_stream(&stream_config());

    world.pa.force_active(1);
    assert_eq!(world.stream_start(&mut stream), AUDIO_OK);
    assert_eq!(world.pa.start_count, 0);

    world.pa.force_active(-21);
    assert_eq!(world.stream_start(&mut stream), AUDIO_PORTAUDIO_ERROR);
    world.pa.force_active(0);
    world.pa.start_result = -22;
    assert_eq!(world.stream_start(&mut stream), AUDIO_PORTAUDIO_ERROR);
    world.pa.start_result = 0;
    assert_eq!(world.stream_start(&mut stream), AUDIO_OK);

    world.pa.force_active(0);
    assert_eq!(world.stream_stop(&mut stream), AUDIO_OK);
    world.pa.force_active(-23);
    assert_eq!(world.stream_stop(&mut stream), AUDIO_PORTAUDIO_ERROR);
    world.pa.force_active(1);
    world.pa.stop_result = -24;
    assert_eq!(world.stream_stop(&mut stream), AUDIO_PORTAUDIO_ERROR);
    world.pa.stop_result = 0;
    assert_eq!(world.stream_stop(&mut stream), AUDIO_OK);

    let stats = stream.stats();
    assert_eq!(stats.device_error_count, 6);
    assert_eq!(stats.last_portaudio_error, -24);
    assert!(world.stream_destroy(stream).is_none());
}

#[test]
fn stream_destroy_stops_aborts_or_closes_as_required() {
    let mut world = world();
    let config = stream_config();
    let stream = world.fake_stream(&config);
    world.pa.force_active(1);
    world.pa.stop_result = -31;
    world.pa.abort_result = -32;
    world.pa.close_result = -33;
    let retained = world.stream_destroy(stream).expect("retained stream");
    assert_eq!(world.pa.stop_count, 2);
    assert_eq!(world.pa.abort_count, 2);
    assert_eq!(world.pa.close_count, 2);
    assert_eq!(world.pa.terminate_count, 0);

    // Failed closes retain userdata, runtime and lease. Retry after recovery.
    world.pa.stop_result = 0;
    world.pa.abort_result = 0;
    world.pa.close_result = 0;
    assert!(world.stream_destroy(retained).is_none());
    assert_eq!(world.pa.terminate_count, 1);

    world.reset();
    let recovered = world.fake_stream(&config);
    world.pa.force_active(1);
    world.pa.stop_result = -34;
    assert!(world.stream_destroy(recovered).is_none());
    assert_eq!(world.pa.abort_count, 2);
    assert_eq!(world.pa.close_count, 2);

    world.reset();
    let stopped_cleanly = world.fake_stream(&config);
    world.pa.force_active(1);
    assert!(world.stream_destroy(stopped_cleanly).is_none());
    assert_eq!(world.pa.stop_count, 2);
    assert_eq!(world.pa.abort_count, 0);
    assert_eq!(world.pa.close_count, 2);
    assert_eq!(world.pa.terminate_count, 1);

    let never_opened = test_stream(2, 1, 1, copy_input_to_output);
    assert!(world.stream_destroy(never_opened).is_none());
}

#[test]
fn stream_stats_reject_invalid_pointers_and_short_structures() {
    let stream = test_stream(2, 1, 1, copy_input_to_output);
    let read = |size: u32| stream_get_stats(size, &stream.control.stats, stream.snapshot());
    assert_eq!(read(0), Err(AUDIO_INVALID_ARGUMENT));
    assert_eq!(read(STREAM_STATS_V1_SIZE - 1), Err(AUDIO_INVALID_ARGUMENT));
    assert!(read(STREAM_STATS_V1_SIZE).is_ok());
    assert_eq!(
        stream_get_stats(STREAM_STATS_SIZE, &stream.control.stats, Err(AUDIO_PORTAUDIO_ERROR)),
        Err(AUDIO_PORTAUDIO_ERROR)
    );
}

#[test]
fn callback_handles_null_input_null_output_and_zero_frames() {
    let mut stream = test_stream(2, 1, 1, copy_input_to_output);
    let mut output = [1.0; 2];
    assert_eq!(stream.process_callback(None, Some(&mut output), 2, 0), PA_CONTINUE);
    assert_eq!(output, [0.0; 2]);
    assert_eq!(stream.process_callback(None, None, 2, 0), PA_ABORT);
    let mut no_frames: [f32; 0] = [];
    assert_eq!(stream.process_callback(None, Some(&mut no_frames), 0, 0), PA_CONTINUE);
    assert_eq!(stream.control.stats.callback_count, 2);
    assert_eq!(stream.control.stats.native_tick_failure_count, 1);
}

#[test]
fn callback_preserves_stereo_physical_channels() {
    let mut stream = test_stream(2, 2, 2, copy_input_to_output);
    let input = [0.125, -0.25, 0.5, -0.75];
    let mut output = [0.0; 4];
    assert_eq!(stream.process_callback(Some(&input), Some(&mut output), 2, 0), PA_CONTINUE);
    assert_eq!(output, input);
}

#[test]
fn playback_splits_blocks_and_handles_empty_or_missing_output() {
    let mut world = world();
    let mut stream = test_stream(2, 1, 1, copy_input_to_output);
    let mut output = [1.0_f32; 4];
    assert_eq!(
        world.playback_callback(&mut stream, Some(&mut output), 4, PA_OUTPUT_UNDERFLOW),
        PA_CONTINUE
    );
    assert_eq!(output, [0.0; 4]);
    assert_eq!(stream.control.stats.oversized_callback_count, 1);
    assert_eq!(stream.control.stats.output_underflow_count, 1);
    assert_eq!(world.playback_callback(&mut stream, None, 2, 0), PA_ABORT);
    assert_eq!(world.playback_callback(&mut stream, Some(&mut output), 0, 0), PA_CONTINUE);
}

#[test]
fn start_handles_capture_activity_and_stop_failure() {
    let mut world = world();
    let mut stream = world.fake_stream(&stream_config());
    world.pa.endpoint_active[0] = -17;
    assert_eq!(world.stream_start(&mut stream), AUDIO_PORTAUDIO_ERROR);
    assert_eq!(stream.control.stats.last_portaudio_error, -17);
    world.pa.force_active(1);
    assert_eq!(world.stream_start(&mut stream), AUDIO_OK);
    world.pa.endpoint_active[0] = 0;
    world.pa.stop_result = -18;
    assert_eq!(world.stream_start(&mut stream), AUDIO_PORTAUDIO_ERROR);
    world.pa.force_active(0);
    world.pa.stop_result = 0;
    assert!(world.stream_destroy(stream).is_none());
}

#[test]
fn second_endpoint_failed_close_retains_live_capture_storage() {
    let mut world = world();
    world.pa.open_results.extend([0, -22]);
    world.pa.close_result = -23;
    let (status, retained) = world.create(TEST_FUNCTIONS, Some(stream_config()));
    assert_eq!(status, AUDIO_PORTAUDIO_ERROR);
    let mut retained = retained.expect("retained capture storage");
    assert_eq!(world.capture_callback(&mut retained, None, 2, 0), PA_CONTINUE);
    assert_eq!(world.process.runtime.references, 1);
    assert!(world.process.leases.claimed_devices.contains(&0));
    assert!(world.process.leases.claimed_devices.contains(&1));
    assert_eq!(world.pa.terminate_count, 0);
}

#[test]
fn failed_start_aborts_an_endpoint_that_became_active_before_returning_error() {
    let mut world = world();
    let mut stream = world.fake_stream(&stream_config());
    world.pa.activates_before_failing = true;
    assert_eq!(world.stream_start(&mut stream), AUDIO_PORTAUDIO_ERROR);
    assert_eq!(world.pa.abort_count, 1);
    assert!(world.pa.endpoint_active.iter().all(|active| *active == 0));
    assert!(world.stream_destroy(stream).is_none());
}

#[test]
fn timing_validates_each_independent_stream_before_publishing() {
    let mut world = world();
    let mut stream = world.fake_stream(&stream_config());
    world.pa.separate_capture_info = true;
    for invalid in 0..6 {
        let mut value = fake_stream_info();
        let mut available = true;
        match invalid {
            0 => available = false,
            1 => value.struct_version = -1,
            2 => value.sample_rate = f64::NAN,
            3 => value.sample_rate = 0.0,
            4 => value.sample_rate = 48_000.0,
            5 => world.pa.stream_info.output_latency = -0.1,
            _ => unreachable!(),
        }
        world.pa.capture_info = if available { Some(value) } else { None };
        let mut timing = empty_timing();
        assert_eq!(world.stream_timing(&mut stream, &mut timing), AUDIO_PORTAUDIO_ERROR);
        assert_eq!(timing.abi_version, 0);
    }
    world.pa.stream_info = fake_stream_info();
    world.pa.stream_info.input_latency = 9.0;
    let mut capture = fake_stream_info();
    capture.output_latency = 9.0;
    world.pa.capture_info = Some(capture);
    let mut timing = empty_timing();
    assert_eq!(world.stream_timing(&mut stream, &mut timing), AUDIO_OK);
    assert_eq!(f64::from_bits(timing.input_latency_seconds), 0.008);
    assert_eq!(f64::from_bits(timing.output_latency_seconds), 0.012);
    assert!(world.stream_destroy(stream).is_none());
}

#[test]
fn capture_splits_oversized_blocks_and_meters_what_it_pushes() {
    let mut world = world();
    let mut stream = test_stream(2, 1, 1, copy_input_to_output);
    assert_eq!(
        world.capture_callback(&mut stream, Some(&[0.25, -0.5, 1.0]), 3, PA_INPUT_OVERFLOW),
        PA_CONTINUE
    );
    assert_eq!(
        stream.fifo.samples.iter().copied().collect::<Vec<u32>>(),
        bits(&[0.25, -0.5, 1.0])
    );
    assert_eq!(stream.control.stats.capture_callback_count, 1);
    assert_eq!(stream.control.stats.input_overflow_count, 1);
    assert_eq!(stream.control.stats.input_clip_sample_count, 1);
    assert_eq!(f32::from_bits(stream.control.stats.input_peak_bits), 1.0);

    // Missing input is metered and pushed as silence.
    assert_eq!(world.capture_callback(&mut stream, None, 2, 0), PA_CONTINUE);
    assert_eq!(stream.fifo.samples.len(), 5);
    assert_eq!(stream.capture.input_meter.sample_count, 5);
    assert!(stream.fifo.samples.iter().skip(3).all(|sample| *sample == 0));
    assert_eq!(f32::from_bits(stream.control.stats.input_peak_bits), 1.0);

    stream.control.stats.record_capture_overflow_timestamp(0);
    assert_eq!(stream.control.stats.callback_clock_error_count, 1);
}

#[test]
fn capture_aborts_at_the_first_push_the_ring_refuses() {
    let mut stream = test_stream(2, 1, 1, copy_input_to_output);
    let input = bits(&[0.25, -0.5, 1.0]);
    let mut callback =
        CaptureCallback::begin(&stream.capture, &mut stream.control.stats, 3, 0, 0);
    let chunk = callback.chunk().expect("first chunk");
    assert_eq!((chunk.offset, chunk.frames), (0, 2));
    let samples =
        callback.take(&mut stream.capture, Some(&input), &stream.silence, &add_square);
    assert_eq!(samples, &input[..2]);
    callback.pushed(&mut stream.control.stats, CaptureRing::push(-1, 0).is_ok());
    assert_eq!(callback.chunk(), None);
    assert_eq!(stream.control.stats.device_error_count, 1);
    assert_eq!(
        callback.finish(&stream.capture, &mut stream.control.stats, &root),
        PA_ABORT
    );
}

#[test]
fn primed_playback_renders_captured_samples_in_order() {
    let mut world = world();
    let mut stream = test_stream(2, 1, 2, copy_input_to_output);
    let prime = stream.ring.prime as usize;
    let input: Vec<f32> = (0..prime).map(|index| index as f32 / 1024.0).collect();
    for block in input.chunks(2) {
        assert_eq!(
            world.capture_callback(&mut stream, Some(block), block.len(), 0),
            PA_CONTINUE
        );
    }
    let mut output = [1.0_f32; 4];
    assert_eq!(world.playback_callback(&mut stream, Some(&mut output), 2, 0), PA_CONTINUE);
    assert_eq!(output, [input[0], input[0], input[1], input[1]]);
    let stats = stream.stats();
    assert_eq!(stats.capture_startup_wait_frames, 0);
    assert_eq!(stats.input_queue_occupancy_frames, prime as u64 - 2);
}

#[test]
fn playback_aborts_when_the_ring_cannot_be_read() {
    let mut stream = test_stream(2, 1, 1, copy_input_to_output);
    let mut output = [1.0_f32; 3];
    let result = stream.render(Some(&mut output), 3, 0, |_, _| false);
    assert_eq!(result, PA_ABORT);
    assert_eq!(output, [0.0; 3]);
    assert_eq!(stream.control.stats.device_error_count, 1);
    assert_eq!(stream.context, 0);
}

#[test]
fn playback_ignores_the_capture_overflow_flag() {
    let mut plain = SharedStats::default();
    let mut flagged = SharedStats::default();
    assert_eq!(portaudio_callback_begin(&mut plain, 5_000, 2, 48_000, 0), 0);
    assert_eq!(
        portaudio_callback_begin(&mut flagged, 5_000, 2, 48_000, PA_INPUT_OVERFLOW),
        0
    );
    assert_eq!(plain, flagged);
    assert_eq!(plain.previous_callback_period_ns, 41_666);
}

#[test]
fn destroying_a_stream_restores_the_process_it_was_created_in() {
    let mut world = world();
    let stream = world.fake_stream(&stream_config());
    assert_eq!(world.process.runtime.references, 1);
    assert_eq!(world.process.leases.claimed_devices.len(), 2);
    assert!(world.stream_destroy(stream).is_none());
    assert_eq!(world.process.runtime, AdapterProcess::new().runtime);
    assert!(world.process.leases.claimed_devices.is_empty());
}

#[test]
fn playback_fills_and_ticks_each_part_of_an_oversized_block_in_order() {
    let mut stream = test_stream(2, 1, 1, copy_input_to_output);
    let mut output = bits(&[1.0; 5]);
    let mut callback =
        RenderCallback::begin(&stream.playback, &mut stream.control.stats, &mut output, 5, 0);
    let mut parts = Vec::new();
    loop {
        match callback.step() {
            RenderStep::Fill(chunk) => {
                parts.push((chunk.offset, chunk.frames));
                callback.prepared(&mut stream.playback, &mut stream.control.stats, true);
                assert_eq!(callback.step(), RenderStep::Tick(chunk));
                callback.ticked(
                    &mut stream.playback,
                    &mut stream.control.stats,
                    &mut output,
                    0,
                    &average,
                    &add_square,
                );
            }
            RenderStep::Tick(_) => unreachable!(),
            RenderStep::Finished => break,
        }
    }
    assert_eq!(parts, [(0, 2), (2, 2), (4, 1)]);
}

#[test]
fn playback_joins_the_ticks_of_an_oversized_block() {
    let mut stereo = test_stream(2, 1, 2, count_samples);
    let mut output = [1.0_f32; 10];
    let result = stereo.render(Some(&mut output), 5, 0, |_, _| true);
    assert_eq!(result, PA_CONTINUE);
    let ticks: Vec<f32> = (1..=10).map(|sample| sample as f32 / 64.0).collect();
    assert_eq!(output[..], ticks[..]);
    assert_eq!(stereo.playback.output_meter.sample_count, 10);
    assert_eq!(f32::from_bits(stereo.control.stats.output_peak_bits), 10.0 / 64.0);

    let mut mono = test_stream(2, 1, 1, count_samples);
    let mut output = [1.0_f32; 5];
    let result = mono.render(Some(&mut output), 5, 0, |_, _| true);
    assert_eq!(result, PA_CONTINUE);
    assert_eq!(output, [1.5 / 64.0, 3.5 / 64.0, 5.5 / 64.0, 7.5 / 64.0, 9.5 / 64.0]);
    assert_eq!(mono.playback.output_meter.sample_count, 5);
    assert_eq!(f32::from_bits(mono.control.stats.output_peak_bits), 9.5 / 64.0);
}

#[test]
fn playback_keeps_the_ticks_before_a_failed_one_and_silence_after() {
    let mut stream = test_stream(2, 2, 2, fail_on_second_tick);
    let input = [0.125, -0.25, 0.5, -0.75, 0.25, 0.25];
    let mut output = [1.0_f32; 6];
    assert_eq!(stream.process_callback(Some(&input), Some(&mut output), 3, 0), PA_ABORT);
    assert_eq!(output, [0.125, -0.25, 0.5, -0.75, 0.0, 0.0]);
    assert_eq!(stream.playback.output_meter.sample_count, 4);
}

#[test]
fn capture_pushes_an_oversized_silent_block_whole() {
    let mut world = world();
    let mut stream = test_stream(2, 1, 1, copy_input_to_output);
    assert_eq!(world.capture_callback(&mut stream, None, 5, 0), PA_CONTINUE);
    assert_eq!(stream.fifo.samples.iter().copied().collect::<Vec<u32>>(), [0; 5]);
    assert_eq!(stream.capture.input_meter.sample_count, 5);
}

#[test]
fn stream_create_makes_each_call_once_and_in_order() {
    let mut world = world();
    let stream = world.fake_stream(&stream_config());
    assert_eq!(
        world.pa.create_calls,
        ["initialize", "inventory", "ring", "open capture", "open playback"]
    );
    // A second stream finds the runtime initialized and the devices taken.
    world.pa.create_calls.clear();
    let (status, second) = world.create(TEST_FUNCTIONS, Some(stream_config()));
    assert_eq!(status, AUDIO_DEVICE_BUSY);
    assert!(second.is_none());
    assert_eq!(world.pa.create_calls, ["inventory"]);
    assert!(world.stream_destroy(stream).is_none());
}

#[test]
fn stream_create_closes_capture_exactly_when_playback_cannot_be_opened() {
    let mut world = world();
    world.pa.open_results.extend([0, -41]);
    let (status, stream) = world.create(TEST_FUNCTIONS, Some(stream_config()));
    assert_eq!(status, AUDIO_PORTAUDIO_ERROR);
    assert!(stream.is_none());
    assert_eq!(
        world.pa.create_calls,
        [
            "initialize",
            "inventory",
            "ring",
            "open capture",
            "open playback",
            "close capture",
            "terminate",
        ]
    );

    world.reset();
    world.pa.open_results.extend([-42]);
    let (status, stream) = world.create(TEST_FUNCTIONS, Some(stream_config()));
    assert_eq!(status, AUDIO_PORTAUDIO_ERROR);
    assert!(stream.is_none());
    assert_eq!(
        world.pa.create_calls,
        ["initialize", "inventory", "ring", "open capture", "terminate"]
    );
}

#[test]
fn destroy_keeps_open_just_the_endpoint_whose_close_failed() {
    let mut world = world();
    let stream = world.fake_stream(&stream_config());
    world.pa.close_results.extend([-33, 0]);
    let retained = world.stream_destroy(stream).expect("retained stream");
    assert!(retained.control.playback.open);
    assert!(!retained.control.capture.open);
    assert_eq!((world.pa.close_count, world.pa.terminate_count), (2, 0));
    // The retry closes only what is still open.
    assert!(world.stream_destroy(retained).is_none());
    assert_eq!((world.pa.close_count, world.pa.terminate_count), (3, 1));
}
