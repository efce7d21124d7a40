//! Opening a stream: exclusive devices, one runtime reference, a ring and two endpoints.
use vstd::prelude::*;

use crate::abi::{
    StreamConfig, ValidatedStreamConfig, AUDIO_DEVICE_BUSY, AUDIO_INVALID_ARGUMENT, AUDIO_OK,
    AUDIO_PORTAUDIO_ERROR, AUDIO_UNSUPPORTED, STREAM_SAMPLE_RATE_HZ,
};
use crate::capture_ring::{CaptureRing, RingConfig};
use crate::devices::{resolve_device, DeviceInventory, StreamParameters};
use crate::runtime::{
    portaudio_acquire, portaudio_release, DeviceLease, DeviceLeaseRegistry, PortAudioRuntime,
};
use crate::stats::PA_NO_ERROR;
use crate::stream_stop::{Endpoint, StreamControl};

verus! {

/// What streams of one process share.
#[derive(Debug)]
pub struct AdapterProcess {
    pub runtime: PortAudioRuntime,
    pub leases: DeviceLeaseRegistry,
}

impl AdapterProcess {
    /// A process without streams.
    pub fn new() -> (process: AdapterProcess)
        ensures
            process.runtime == (PortAudioRuntime { references: 0, functions: None }),
            process.runtime.well_formed(),
            process.leases@ == Set::<i32>::empty(),
    {
        AdapterProcess {
            runtime: crate::runtime::portaudio_runtime(),
            leases: crate::runtime::device_lease_registry(),
        }
    }
}

/// The part of a checked request that decides how a stream is opened.
#[derive(Clone, Copy, Debug, PartialEq, Eq)]
pub struct StreamRequest {
    pub sample_rate_hz: u32,
    pub maximum_frame_count: usize,
    pub input_device_index: i32,
    pub output_device_index: i32,
    pub input_channels: usize,
    pub output_channels: usize,
}

impl StreamRequest {
    /// The ring bridges two mono clocks of one rate, so nothing else can be opened.
    pub open spec fn supported(self) -> bool {
        self.input_channels == 1 && self.sample_rate_hz == STREAM_SAMPLE_RATE_HZ
    }
}

impl<T, C> ValidatedStreamConfig<T, C> {
    /// The part of the request that decides how the stream is opened.
    pub open spec fn opening(self) -> StreamRequest {
        StreamRequest {
            sample_rate_hz: self.sample_rate_hz,
            maximum_frame_count: self.maximum_frame_count,
            input_device_index: self.input_device_index,
            output_device_index: self.output_device_index,
            input_channels: self.input_channels,
            output_channels: self.output_channels,
        }
    }

    /// Returns the part of the request that decides how the stream is opened.
    pub fn request(&self) -> (request: StreamRequest)
        ensures
            request == self.opening(),
    {
        StreamRequest {
            sample_rate_hz: self.sample_rate_hz,
            maximum_frame_count: self.maximum_frame_count,
            input_device_index: self.input_device_index,
            output_device_index: self.output_device_index,
            input_channels: self.input_channels,
            output_channels: self.output_channels,
        }
    }
}

/// A call that creating a stream needs.
#[derive(Clone, Copy, Debug, PartialEq, Eq)]
pub enum CreateCall<L> {
    /// Initialize PortAudio.
    Initialize,
    /// Read the device inventory.
    ReadInventory,
    /// Create the capture ring. Replies zero or an adapter error.
    CreateRing(RingConfig),
    /// Open one endpoint for one direction only.
    Open {
        endpoint: Endpoint,
        parameters: StreamParameters<L>,
        sample_rate_hz: u32,
        frames_per_buffer: usize,
    },
    /// Close the capture endpoint again.
    CloseCapture,
    /// Terminate PortAudio. The reply does not matter.
    Terminate,
}

/// Creates one stream, or undoes everything that it did.
///
/// One exception remains: a capture endpoint that cannot be closed again keeps its
/// storage, its runtime reference and its lease, because its callback may still run.
#[derive(Debug)]
pub struct StreamCreate<L> {
    /// The call to make next; none once the operation is over.
    pub next_call: Option<CreateCall<L>>,
    /// The result, once the operation is over.
    pub status: i32,
    pub functions: usize,
    pub request: StreamRequest,
    pub stream: StreamControl,
    pub lease: Option<DeviceLease>,
    pub ring: Option<CaptureRing>,
    pub input: Option<StreamParameters<L>>,
    pub output: Option<StreamParameters<L>>,
}

impl<L> StreamCreate<L> {
    /// The call that opens one endpoint.
    pub open spec fn opening(self, endpoint: Endpoint) -> CreateCall<L> {
        CreateCall::Open {
            endpoint,
            parameters: match endpoint {
                Endpoint::Capture => self.input->0,
                Endpoint::Playback => self.output->0,
            },
            sample_rate_hz: self.request.sample_rate_hz,
            frames_per_buffer: self.request.maximum_frame_count,
        }
    }
}

/// The operation with the shared state that it changes.
pub struct CreateState<L> {
    pub create: StreamCreate<L>,
    pub runtime: PortAudioRuntime,
    pub claimed: Set<i32>,
}

impl<L> CreateState<L> {
    /// The operation is over with `status`.
    pub open spec fn over(self, status: i32) -> CreateState<L> {
        CreateState {
            create: StreamCreate { next_call: None, status, ..self.create },
            ..self
        }
    }

    /// The operation goes on with `call`.
    pub open spec fn calling(self, call: CreateCall<L>) -> CreateState<L> {
        CreateState { create: StreamCreate { next_call: Some(call), ..self.create }, ..self }
    }

    /// The lease, if there is one, is given up.
    pub open spec fn unleased(self) -> CreateState<L> {
        match self.create.lease {
            Some(lease) => CreateState {
                create: StreamCreate { lease: None, ..self.create },
                claimed: self.claimed.difference(lease.devices()),
                ..self
            },
            None => self,
        }
    }

    /// The operation fails with `status` and gives the runtime reference back.
    pub open spec fn undone(self, status: i32) -> CreateState<L> {
        let functions = self.create.functions;
        let released = CreateState { runtime: self.runtime.released(functions), ..self };
        if self.runtime.references == 1 && self.runtime.functions == Some(functions) {
            CreateState {
                create: StreamCreate { status, ..released.create },
                ..released
            }.calling(CreateCall::Terminate)
        } else {
            released.over(status)
        }
    }

    /// PortAudio has been initialized, or did not need to be.
    pub open spec fn acquiring(self, code: i32) -> CreateState<L> {
        if self.runtime.compatible(self.create.functions) && (self.runtime.references == 0
            ==> code == PA_NO_ERROR) {
            CreateState {
                runtime: self.runtime.acquired(self.create.functions),
                ..self
            }.calling(CreateCall::ReadInventory)
        } else {
            self.over(AUDIO_PORTAUDIO_ERROR)
        }
    }

    /// The state after the inventory has been read.
    pub open spec fn after_inventory(self, inventory: DeviceInventory<L>) -> CreateState<L> {
        let request = self.create.request;
        let input = crate::devices::resolved_device(
            inventory,
            request.input_device_index,
            request.input_channels,
            true,
        );
        let output = crate::devices::resolved_device(
            inventory,
            request.output_device_index,
            request.output_channels,
            false,
        );
        match (input, output) {
            (Err(error), _) => self.undone(error),
            (_, Err(error)) => self.undone(error),
            (Ok(input), Ok(output)) => if self.claimed.contains(input.device)
                || self.claimed.contains(output.device) {
                self.undone(AUDIO_DEVICE_BUSY)
            } else if !crate::capture_ring::ring_maximum_allowed(request.maximum_frame_count) {
                self.undone(AUDIO_INVALID_ARGUMENT)
            } else {
                let lease = DeviceLease {
                    input_device: input.device,
                    output_device: output.device,
                };
                let ring = new_ring(request.maximum_frame_count);
                CreateState {
                    create: StreamCreate {
                        lease: Some(lease),
                        ring: Some(ring),
                        input: Some(input),
                        output: Some(output),
                        ..self.create
                    },
                    claimed: self.claimed.union(lease.devices()),
                    ..self
                }.calling(CreateCall::CreateRing(ring_config(ring)))
            },
        }
    }

    /// The state after the call that was due replied `code`.
    pub open spec fn after(self, code: i32) -> CreateState<L> {
        match self.create.next_call {
            Some(CreateCall::Initialize) => self.acquiring(code),
            Some(CreateCall::CreateRing(_)) => if code != 0 {
                self.unleased().undone(code)
            } else {
                self.calling(self.create.opening(Endpoint::Capture))
            },
            Some(CreateCall::Open { endpoint: Endpoint::Capture, .. }) => if code != PA_NO_ERROR {
                CreateState {
                    create: StreamCreate {
                        stream: self.create.stream.with_error(code),
                        ..self.create
                    },
                    ..self
                }.unleased().undone(AUDIO_PORTAUDIO_ERROR)
            } else {
                CreateState {
                    create: StreamCreate {
                        stream: self.create.stream.with_open(Endpoint::Capture, true),
                        ..self.create
                    },
                    ..self
                }.calling(self.create.opening(Endpoint::Playback))
            },
            Some(CreateCall::Open { endpoint: Endpoint::Playback, .. }) => if code
                != PA_NO_ERROR {
                CreateState {
                    create: StreamCreate {
                        stream: self.create.stream.with_error(code),
                        ..self.create
                    },
                    ..self
                }.calling(CreateCall::CloseCapture)
            } else {
                CreateState {
                    create: StreamCreate {
                        stream: self.create.stream.with_open(Endpoint::Playback, true),
                        ..self.create
                    },
                    ..self
                }.over(AUDIO_OK)
            },
            Some(CreateCall::CloseCapture) => if code == PA_NO_ERROR {
                CreateState {
                    create: StreamCreate {
                        stream: self.create.stream.with_open(Endpoint::Capture, false),
                        ..self.create
                    },
                    ..self
                }.unleased().undone(AUDIO_PORTAUDIO_ERROR)
            } else {
                CreateState {
                    create: StreamCreate {
                        stream: self.create.stream.with_error(code),
                        ..self.create
                    },
                    ..self
                }.over(AUDIO_PORTAUDIO_ERROR)
            },
            Some(CreateCall::Terminate) => self.over(self.create.status),
            _ => self,
        }
    }
}

/// The policy of a ring for blocks of at most `maximum` frames.
pub open spec fn new_ring(maximum: usize) -> CaptureRing {
    CaptureRing {
        maximum,
        capacity: crate::capture_ring::ring_capacity(maximum as int) as u64,
        target: crate::capture_ring::ring_target(maximum as int) as u64,
        prime: crate::capture_ring::ring_prime(maximum as int) as u64,
        primed: false,
        startup_silence: 0,
    }
}

/// How a ring is to be created.
pub open spec fn ring_config(ring: CaptureRing) -> RingConfig {
    RingConfig {
        abi_version: crate::capture_ring::RING_ABI,
        capacity_samples: ring.capacity,
        input_rate_hz: STREAM_SAMPLE_RATE_HZ,
        output_rate_hz: STREAM_SAMPLE_RATE_HZ,
        quality: crate::capture_ring::RING_QUALITY_BEST,
    }
}

impl<L: Copy> StreamCreate<L> {
    /// The operation before anything has been done for `request`.
    pub open spec fn blank(functions: usize, request: StreamRequest) -> StreamCreate<L> {
        StreamCreate {
            next_call: None,
            status: AUDIO_UNSUPPORTED,
            functions,
            request,
            stream: StreamControl::fresh(),
            lease: None,
            ring: None,
            input: None,
            output: None,
        }
    }

    /// The operation together with the state of the process.
    pub open spec fn state(self, process: AdapterProcess) -> CreateState<L> {
        CreateState { create: self, runtime: process.runtime, claimed: process.leases@ }
    }

    /// Each call that is due has what it needs.
    pub open spec fn well_formed(self) -> bool {
        &&& 1 <= self.request.input_channels <= 2
        &&& 1 <= self.request.output_channels <= 2
        &&& match self.next_call {
            Some(CreateCall::Initialize) => self.lease is None,
            Some(CreateCall::ReadInventory) => self.lease is None,
            Some(CreateCall::CreateRing(_)) => self.input is Some && self.output is Some,
            Some(CreateCall::Open { .. }) => self.input is Some && self.output is Some,
            _ => true,
        }
    }

    /// The first state of the operation on a checked request.
    pub open spec fn first(
        functions: usize,
        request: StreamRequest,
        runtime: PortAudioRuntime,
        claimed: Set<i32>,
    ) -> CreateState<L> {
        let blank = CreateState {
            create: StreamCreate::blank(functions, request),
            runtime,
            claimed,
        };
        if !request.supported() {
            blank
        } else if runtime.references == 0 {
            blank.calling(CreateCall::Initialize)
        } else {
            blank.acquiring(PA_NO_ERROR)
        }
    }

    /// Begins to create a stream, or refuses a malformed request with an error.
    pub fn begin<T, C>(
        process: &mut AdapterProcess,
        functions: usize,
        config: Option<StreamConfig<T, C>>,
    ) -> (result: Result<(StreamCreate<L>, ValidatedStreamConfig<T, C>), i32>)
        requires
            old(process).runtime.well_formed(),
            old(process).runtime.references < usize::MAX,
        ensures
            final(process).runtime.well_formed(),
            match config {
                Some(config) if config.acceptable() => result matches Ok((create, validated)) && {
                    &&& validated.describes(config)
                    &&& create.well_formed()
                    &&& create.state(*final(process)) == StreamCreate::<L>::first(
                        functions,
                        validated.opening(),
                        old(process).runtime,
                        old(process).leases@,
                    )
                },
                _ => {
                    &&& result matches Err(error) && error == AUDIO_INVALID_ARGUMENT
                    &&& final(process).runtime == old(process).runtime
                    &&& final(process).leases@ == old(process).leases@
                },
            },
    {
        let config = match ValidatedStreamConfig::from_ffi(config) {
            Ok(config) => config,
            Err(error) => return Err(error),
        };
        let request = config.request();
        let mut create: StreamCreate<L> = StreamCreate {
            next_call: None,
            status: AUDIO_UNSUPPORTED,
            functions,
            request,
            stream: StreamControl::new(),
            lease: None,
            ring: None,
            input: None,
            output: None,
        };
        if request.input_channels != 1 || request.sample_rate_hz != STREAM_SAMPLE_RATE_HZ {
            return Ok((create, config));
        }
        if process.runtime.needs_initialize() {
            create.next_call = Some(CreateCall::Initialize);
        } else {
            create.acquire(process, PA_NO_ERROR);
        }
        Ok((create, config))
    }

    fn acquire(&mut self, process: &mut AdapterProcess, code: i32)
        requires
            old(process).runtime.well_formed(),
            old(process).runtime.references < usize::MAX,
            old(self).lease is None,
            1 <= old(self).request.input_channels <= 2,
            1 <= old(self).request.output_channels <= 2,
        ensures
            final(self).well_formed(),
            final(process).runtime.well_formed(),
            final(self).state(*final(process)) == old(self).state(*old(process)).acquiring(code),
    {
        match portaudio_acquire(&mut process.runtime, self.functions, code) {
            Ok(()) => {
                self.next_call = Some(CreateCall::ReadInventory);
            },
            Err(error) => {
                self.next_call = None;
                self.status = error;
            },
        }
    }

    fn undo(&mut self, process: &mut AdapterProcess, status: i32)
        requires
            old(process).runtime.well_formed(),
            1 <= old(self).request.input_channels <= 2,
            1 <= old(self).request.output_channels <= 2,
        ensures
            final(self).well_formed(),
            final(process).runtime.well_formed(),
            final(self).state(*final(process)) == old(self).state(*old(process)).unleased().undone(
                status,
            ),
    {
        match self.lease.take() {
            Some(lease) => {
                lease.release(&mut process.leases);
            },
            None => {},
        }
        self.status = status;
        if portaudio_release(&mut process.runtime, self.functions) {
            self.next_call = Some(CreateCall::Terminate);
        } else {
            self.next_call = None;
        }
    }

    /// The call to make next, or none when the operation is over.
    pub fn call(&self) -> (call: Option<CreateCall<L>>)
        ensures
            call == self.next_call,
    {
        match &self.next_call {
            Some(call) => Some(*call),
            None => None,
        }
    }

    /// Takes the inventory that was due.
    pub fn inventory(&mut self, process: &mut AdapterProcess, inventory: &DeviceInventory<L>)
        requires
            old(self).well_formed(),
            old(self).next_call is Some,
            old(self).next_call->0 is ReadInventory,
            old(process).runtime.well_formed(),
            inventory.complete(),
        ensures
            final(self).well_formed(),
            final(process).runtime.well_formed(),
            final(self).state(*final(process)) == old(self).state(*old(process)).after_inventory(
                *inventory,
            ),
    {
        let request = self.request;
        let input = match resolve_device(
            inventory,
            request.input_device_index,
            request.input_channels,
            true,
        ) {
            Ok(input) => input,
            Err(error) => {
                self.undo(process, error);
                return ;
            },
        };
        let output = match resolve_device(
            inventory,
            request.output_device_index,
            request.output_channels,
            false,
        ) {
            Ok(output) => output,
            Err(error) => {
                self.undo(process, error);
                return ;
            },
        };
        let lease = match DeviceLease::acquire(&mut process.leases, input.device, output.device) {
            Ok(lease) => lease,
            Err(error) => {
                self.undo(process, error);
                return ;
            },
        };
        self.lease = Some(lease);
        match CaptureRing::new(request.maximum_frame_count) {
            Ok(ring) => {
                self.next_call = Some(CreateCall::CreateRing(ring.config()));
                self.ring = Some(ring);
                self.input = Some(input);
                self.output = Some(output);
            },
            Err(error) => {
                self.undo(process, error);
                proof {
                    crate::runtime::law_lease_release_undoes_acquire(
                        old(process).leases@,
                        DeviceLease { input_device: input.device, output_device: output.device },
                    );
                }
            },
        }
    }

    fn open_call(&self, endpoint: Endpoint) -> (call: CreateCall<L>)
        requires
            self.input is Some,
            self.output is Some,
        ensures
            call == self.opening(endpoint),
    {
        let parameters: StreamParameters<L> = match endpoint {
            Endpoint::Capture => self.input.unwrap(),
            Endpoint::Playback => self.output.unwrap(),
        };
        CreateCall::Open {
            endpoint,
            parameters,
            sample_rate_hz: self.request.sample_rate_hz,
            frames_per_buffer: self.request.maximum_frame_count,
        }
    }

    /// Takes the reply to the call that was due.
    pub fn reply(&mut self, process: &mut AdapterProcess, code: i32)
        requires
            old(self).well_formed(),
            old(self).next_call is Some,
            !(old(self).next_call->0 is ReadInventory),
            old(process).runtime.well_formed(),
            old(self).next_call->0 is Initialize ==> old(process).runtime.references < usize::MAX,
        ensures
            final(self).well_formed(),
            final(process).runtime.well_formed(),
            final(self).state(*final(process)) == old(self).state(*old(process)).after(code),
    {
        match self.call() {
            Some(CreateCall::Initialize) => {
                self.acquire(process, code);
            },
            Some(CreateCall::CreateRing(_)) => {
                if code != 0 {
                    self.undo(process, code);
                } else {
                    let call = self.open_call(Endpoint::Capture);
                    self.next_call = Some(call);
                }
            },
            Some(CreateCall::Open { endpoint: Endpoint::Capture, .. }) => {
                if code != PA_NO_ERROR {
                    self.stream.stats.record_portaudio_error(code);
                    self.undo(process, AUDIO_PORTAUDIO_ERROR);
                } else {
                    self.stream.mark_open(Endpoint::Capture, true);
                    let call = self.open_call(Endpoint::Playback);
                    self.next_call = Some(call);
                }
            },
            Some(CreateCall::Open { endpoint: Endpoint::Playback, .. }) => {
                if code != PA_NO_ERROR {
                    self.stream.stats.record_portaudio_error(code);
                    self.next_call = Some(CreateCall::CloseCapture);
                } else {
                    self.stream.mark_open(Endpoint::Playback, true);
                    self.next_call = None;
                    self.status = AUDIO_OK;
                }
            },
            Some(CreateCall::CloseCapture) => {
                if code == PA_NO_ERROR {
                    self.stream.mark_open(Endpoint::Capture, false);
                    self.undo(process, AUDIO_PORTAUDIO_ERROR);
                } else {
                    self.stream.stats.record_portaudio_error(code);
                    self.next_call = None;
                    self.status = AUDIO_PORTAUDIO_ERROR;
                }
            },
            _ => {
                self.next_call = None;
            },
        }
    }
}

impl<L> CreateState<L> {
    /// An upper bound on the calls that are still to be made.
    pub open spec fn calls_left(self) -> nat {
        match self.create.next_call {
            Some(CreateCall::Initialize) => 7,
            Some(CreateCall::ReadInventory) => 6,
            Some(CreateCall::CreateRing(_)) => 5,
            Some(CreateCall::Open { endpoint: Endpoint::Capture, .. }) => 4,
            Some(CreateCall::Open { endpoint: Endpoint::Playback, .. }) => 3,
            Some(CreateCall::CloseCapture) => 2,
            Some(CreateCall::Terminate) => 1,
            None => 0,
        }
    }

    /// The state and the calls made, once every call has been replied to as `codes` and
    /// `inventory` say.
    pub open spec fn run(
        self,
        codes: spec_fn(CreateCall<L>) -> i32,
        inventory: DeviceInventory<L>,
    ) -> (CreateState<L>, Seq<CreateCall<L>>)
        decreases self.calls_left(),
    {
        match self.create.next_call {
            Some(call) => {
                let next = if call is ReadInventory {
                    self.after_inventory(inventory)
                } else {
                    self.after(codes(call))
                };
                let (end, calls) = next.run(codes, inventory);
                (end, seq![call] + calls)
            },
            None => (self, Seq::empty()),
        }
    }
}

/// Everything that decides what becomes of a checked request.
#[verifier::reject_recursive_types(L)]
pub struct CreateSituation<L> {
    pub functions: usize,
    pub request: StreamRequest,
    pub runtime: PortAudioRuntime,
    pub claimed: Set<i32>,
    pub codes: spec_fn(CreateCall<L>) -> i32,
    pub inventory: DeviceInventory<L>,
}

impl<L: Copy> CreateSituation<L> {
    /// The first state of the operation.
    pub open spec fn first(self) -> CreateState<L> {
        StreamCreate::first(self.functions, self.request, self.runtime, self.claimed)
    }

    /// A reference to the runtime can be had.
    pub open spec fn acquires(self) -> bool {
        self.runtime.compatible(self.functions) && (self.runtime.references == 0 ==> (self.codes)(
            CreateCall::Initialize,
        ) == PA_NO_ERROR)
    }

    /// How the capture device is opened, or why it cannot be.
    pub open spec fn input(self) -> Result<StreamParameters<L>, i32> {
        crate::devices::resolved_device(
            self.inventory,
            self.request.input_device_index,
            self.request.input_channels,
            true,
        )
    }

    /// How the playback device is opened, or why it cannot be.
    pub open spec fn output(self) -> Result<StreamParameters<L>, i32> {
        crate::devices::resolved_device(
            self.inventory,
            self.request.output_device_index,
            self.request.output_channels,
            false,
        )
    }

    /// The devices that the stream would own.
    pub open spec fn lease(self) -> DeviceLease {
        DeviceLease {
            input_device: self.input()->Ok_0.device,
            output_device: self.output()->Ok_0.device,
        }
    }

    /// The call that opens one endpoint.
    pub open spec fn open_call(self, endpoint: Endpoint) -> CreateCall<L> {
        CreateCall::Open {
            endpoint,
            parameters: match endpoint {
                Endpoint::Capture => self.input()->Ok_0,
                Endpoint::Playback => self.output()->Ok_0,
            },
            sample_rate_hz: self.request.sample_rate_hz,
            frames_per_buffer: self.request.maximum_frame_count,
        }
    }

    /// The reply to opening one endpoint.
    pub open spec fn opened(self, endpoint: Endpoint) -> i32 {
        (self.codes)(self.open_call(endpoint))
    }

    /// The call that creates the ring.
    pub open spec fn ring_call(self) -> CreateCall<L> {
        CreateCall::CreateRing(ring_config(new_ring(self.request.maximum_frame_count)))
    }

    /// The reply to creating the ring.
    pub open spec fn ring_code(self) -> i32 {
        (self.codes)(self.ring_call())
    }

    /// The devices are known and free, and the block size suits a ring.
    pub open spec fn leases(self) -> bool {
        &&& self.input() is Ok
        &&& self.output() is Ok
        &&& !self.claimed.contains(self.lease().input_device)
        &&& !self.claimed.contains(self.lease().output_device)
        &&& crate::capture_ring::ring_maximum_allowed(self.request.maximum_frame_count)
    }

    /// What the operation reports.
    pub open spec fn status(self) -> i32 {
        if !self.request.supported() {
            AUDIO_UNSUPPORTED
        } else if !self.acquires() {
            AUDIO_PORTAUDIO_ERROR
        } else if self.input() is Err {
            self.input()->Err_0
        } else if self.output() is Err {
            self.output()->Err_0
        } else if self.claimed.contains(self.lease().input_device) || self.claimed.contains(
            self.lease().output_device,
        ) {
            AUDIO_DEVICE_BUSY
        } else if !crate::capture_ring::ring_maximum_allowed(self.request.maximum_frame_count) {
            AUDIO_INVALID_ARGUMENT
        } else if self.ring_code() != 0 {
            self.ring_code()
        } else if self.opened(Endpoint::Capture) != PA_NO_ERROR || self.opened(Endpoint::Playback)
            != PA_NO_ERROR {
            AUDIO_PORTAUDIO_ERROR
        } else {
            AUDIO_OK
        }
    }

    /// Capture has been opened, and playback cannot be.
    pub open spec fn misses_playback(self) -> bool {
        &&& self.request.supported()
        &&& self.acquires()
        &&& self.leases()
        &&& self.ring_code() == 0
        &&& self.opened(Endpoint::Capture) == PA_NO_ERROR
        &&& self.opened(Endpoint::Playback) != PA_NO_ERROR
    }

    /// The operation has to leave its capture endpoint behind: playback could not be
    /// opened, and then capture could not be closed.
    pub open spec fn strands_capture(self) -> bool {
        self.misses_playback() && (self.codes)(CreateCall::CloseCapture) != PA_NO_ERROR
    }

    /// The calls that take the runtime reference: only its first owner initializes
    /// PortAudio.
    pub open spec fn entering_calls(self) -> Seq<CreateCall<L>> {
        if self.runtime.references == 0 {
            seq![CreateCall::Initialize]
        } else {
            Seq::empty()
        }
    }

    /// The calls that give the runtime reference back: only its last owner terminates
    /// PortAudio.
    pub open spec fn leaving_calls(self) -> Seq<CreateCall<L>> {
        if self.runtime.references == 0 {
            seq![CreateCall::Terminate]
        } else {
            Seq::empty()
        }
    }

    /// The calls from the moment at which the devices are leased.
    pub open spec fn leased_calls(self) -> Seq<CreateCall<L>> {
        let ring = seq![self.ring_call()];
        let capture = ring.push(self.open_call(Endpoint::Capture));
        let playback = capture.push(self.open_call(Endpoint::Playback));
        if self.ring_code() != 0 {
            ring + self.leaving_calls()
        } else if self.opened(Endpoint::Capture) != PA_NO_ERROR {
            capture + self.leaving_calls()
        } else if self.opened(Endpoint::Playback) == PA_NO_ERROR {
            playback
        } else if (self.codes)(CreateCall::CloseCapture) == PA_NO_ERROR {
            playback.push(CreateCall::CloseCapture) + self.leaving_calls()
        } else {
            playback.push(CreateCall::CloseCapture)
        }
    }

    /// All calls that the operation makes, in order.
    pub open spec fn calls(self) -> Seq<CreateCall<L>> {
        if !self.request.supported() || !self.runtime.compatible(self.functions) {
            Seq::empty()
        } else if !self.acquires() {
            self.entering_calls()
        } else if !self.leases() {
            self.entering_calls().push(CreateCall::ReadInventory) + self.leaving_calls()
        } else {
            self.entering_calls().push(CreateCall::ReadInventory) + self.leased_calls()
        }
    }
}

proof fn lemma_create_step<L>(
    state: CreateState<L>,
    codes: spec_fn(CreateCall<L>) -> i32,
    inventory: DeviceInventory<L>,
)
    requires
        state.create.next_call is Some,
    ensures
        ({
            let call = state.create.next_call->0;
            let next = if call is ReadInventory {
                state.after_inventory(inventory)
            } else {
                state.after(codes(call))
            };
            let (end, calls) = next.run(codes, inventory);
            state.run(codes, inventory) == (end, seq![call] + calls)
        }),
{
}

/// Undoing ends with the status it was given and one reference less, and terminates
/// PortAudio where that was the last.
proof fn lemma_undone<L>(
    state: CreateState<L>,
    status: i32,
    codes: spec_fn(CreateCall<L>) -> i32,
    inventory: DeviceInventory<L>,
)
    requires
        state.runtime.well_formed(),
    ensures
        ({
            let (end, calls) = state.undone(status).run(codes, inventory);
            &&& calls == if state.runtime.references == 1 && state.runtime.functions == Some(
                state.create.functions,
            ) {
                seq![CreateCall::<L>::Terminate]
            } else {
                Seq::empty()
            }
            &&& end.create.next_call is None
            &&& end.create.status == status
            &&& end.create.lease == state.create.lease
            &&& end.claimed == state.claimed
            &&& end.runtime == state.runtime.released(state.create.functions)
        }),
{
    let undone = state.undone(status);
    if undone.create.next_call is Some {
        lemma_create_step(undone, codes, inventory);
        let over = undone.after(codes(CreateCall::Terminate));
        assert(over.run(codes, inventory).1 =~= Seq::<CreateCall<L>>::empty());
    }
}

/// The operation from the moment at which the devices are leased.
proof fn lemma_create_leased<L: Copy>(situation: CreateSituation<L>, state: CreateState<L>)
    requires
        situation.leases(),
        situation.runtime.well_formed(),
        situation.runtime.references < usize::MAX,
        situation.runtime.compatible(situation.functions),
        state.runtime == situation.runtime.acquired(situation.functions),
        state.claimed == situation.claimed.union(situation.lease().devices()),
        state.create.functions == situation.functions,
        state.create.request == situation.request,
        state.create.lease == Some(situation.lease()),
        state.create.input == Some(situation.input()->Ok_0),
        state.create.output == Some(situation.output()->Ok_0),
        state.create.stream == StreamControl::fresh(),
        state.create.ring == Some(new_ring(situation.request.maximum_frame_count)),
        state.create.next_call == Some(
            CreateCall::<L>::CreateRing(
                ring_config(new_ring(situation.request.maximum_frame_count)),
            ),
        ),
    ensures
        ({
            let (end, calls) = state.run(situation.codes, situation.inventory);
            let ring_code = situation.ring_code();
            let capture = situation.opened(Endpoint::Capture);
            let playback = situation.opened(Endpoint::Playback);
            let close = (situation.codes)(CreateCall::CloseCapture);
            let stranded = ring_code == 0 && capture == PA_NO_ERROR && playback != PA_NO_ERROR
                && close != PA_NO_ERROR;
            let succeeded = ring_code == 0 && capture == PA_NO_ERROR && playback == PA_NO_ERROR;
            &&& calls == situation.leased_calls()
            &&& end.create.next_call is None
            &&& end.create.status == if ring_code != 0 {
                ring_code
            } else if succeeded {
                AUDIO_OK
            } else {
                AUDIO_PORTAUDIO_ERROR
            }
            &&& succeeded ==> end.create.stream == StreamControl::fresh().with_open(
                Endpoint::Capture,
                true,
            ).with_open(Endpoint::Playback, true) && end.create.ring == state.create.ring
            &&& succeeded || stranded ==> {
                &&& end.runtime == state.runtime
                &&& end.claimed == state.claimed
                &&& end.create.lease == state.create.lease
            }
            &&& stranded ==> end.create.stream.capture.open
            &&& !succeeded && !stranded ==> {
                &&& end.runtime == situation.runtime
                &&& end.claimed == situation.claimed
                &&& end.create.lease is None
            }
        }),
{
    let codes = situation.codes;
    let inventory = situation.inventory;
    let ring_code = situation.ring_code();
    crate::runtime::law_lease_release_undoes_acquire(situation.claimed, situation.lease());
    crate::runtime::law_release_undoes_acquire(situation.runtime, situation.functions);
    lemma_create_step(state, codes, inventory);
    if ring_code != 0 {
        lemma_undone(state.unleased(), ring_code, codes, inventory);
    } else {
        let opening = state.after(ring_code);
        lemma_create_step(opening, codes, inventory);
        let second = opening.after(situation.opened(Endpoint::Capture));
        if situation.opened(Endpoint::Capture) != PA_NO_ERROR {
            let failed = CreateState {
                create: StreamCreate {
                    stream: opening.create.stream.with_error(situation.opened(Endpoint::Capture)),
                    ..opening.create
                },
                ..opening
            };
            lemma_undone(failed.unleased(), AUDIO_PORTAUDIO_ERROR, codes, inventory);
        } else {
            lemma_create_step(second, codes, inventory);
            let third = second.after(situation.opened(Endpoint::Playback));
            if situation.opened(Endpoint::Playback) != PA_NO_ERROR {
                lemma_create_step(third, codes, inventory);
                let close = codes(CreateCall::CloseCapture);
                if close == PA_NO_ERROR {
                    let closed = CreateState {
                        create: StreamCreate {
                            stream: third.create.stream.with_open(Endpoint::Capture, false),
                            ..third.create
                        },
                        ..third
                    };
                    lemma_undone(closed.unleased(), AUDIO_PORTAUDIO_ERROR, codes, inventory);
                }
            }
        }
    }
    assert(state.run(codes, inventory).1 =~= situation.leased_calls());
}

/// Capture is closed again exactly where playback could not be opened.
proof fn lemma_close_call<L: Copy>(situation: CreateSituation<L>)
    ensures
        situation.calls().contains(CreateCall::CloseCapture) == situation.misses_playback(),
{
    let calls = situation.calls();
    if situation.misses_playback() {
        let place = situation.entering_calls().len() + 4;
        assert(calls[place as int] == CreateCall::<L>::CloseCapture);
    }
}

/// No call is made twice, and a successful operation makes just these.
proof fn lemma_calls_are_distinct<L: Copy>(situation: CreateSituation<L>)
    ensures
        situation.calls().no_duplicates(),
        situation.status() == AUDIO_OK ==> situation.calls() == situation.entering_calls() + seq![
            CreateCall::ReadInventory,
            situation.ring_call(),
            situation.open_call(Endpoint::Capture),
            situation.open_call(Endpoint::Playback),
        ],
{
    if situation.status() == AUDIO_OK {
        assert(situation.calls() =~= situation.entering_calls() + seq![
            CreateCall::ReadInventory,
            situation.ring_call(),
            situation.open_call(Endpoint::Capture),
            situation.open_call(Endpoint::Playback),
        ]);
    }
}

/// The operation goes through its calls, and ends in this state.
proof fn lemma_create_run<L: Copy>(situation: CreateSituation<L>)
    requires
        situation.runtime.well_formed(),
        situation.runtime.references < usize::MAX,
    ensures
        ({
            let (end, calls) = situation.first().run(situation.codes, situation.inventory);
            &&& calls == situation.calls()
            &&& end.create.next_call is None
            &&& end.create.status == situation.status()
            &&& situation.status() == AUDIO_OK ==> {
                &&& end.create.stream.playback.open
                &&& end.create.stream.capture.open
                &&& end.create.stream.stats == crate::stats::SharedStats::zero()
                &&& end.create.ring == Some(new_ring(situation.request.maximum_frame_count))
            }
            &&& situation.status() == AUDIO_OK || situation.strands_capture() ==> {
                &&& end.runtime == situation.runtime.acquired(situation.functions)
                &&& end.claimed == situation.claimed.union(situation.lease().devices())
                &&& situation.claimed.disjoint(situation.lease().devices())
                &&& end.create.lease == Some(situation.lease())
            }
            &&& situation.status() != AUDIO_OK && !situation.strands_capture() ==> {
                &&& end.runtime == situation.runtime
                &&& end.claimed == situation.claimed
                &&& end.create.lease is None
            }
        }),
{
    let codes = situation.codes;
    let inventory = situation.inventory;
    let first = situation.first();
    if situation.request.supported() {
        if situation.runtime.references == 0 {
            lemma_create_step(first, codes, inventory);
        }
        let blank = CreateState {
            create: StreamCreate::<L>::blank(situation.functions, situation.request),
            runtime: situation.runtime,
            claimed: situation.claimed,
        };
        let code = if situation.runtime.references == 0 {
            codes(CreateCall::Initialize)
        } else {
            PA_NO_ERROR
        };
        let reading = blank.acquiring(code);
        assert(first.run(codes, inventory).0 == reading.run(codes, inventory).0);
        assert(first.run(codes, inventory).1 =~= if situation.runtime.references == 0 {
            seq![CreateCall::Initialize] + reading.run(codes, inventory).1
        } else {
            reading.run(codes, inventory).1
        });
        if situation.acquires() {
            crate::runtime::law_release_undoes_acquire(situation.runtime, situation.functions);
            lemma_create_step(reading, codes, inventory);
            if situation.leases() {
                lemma_create_leased(situation, reading.after_inventory(inventory));
            } else {
                let status = situation.status();
                lemma_undone(reading, status, codes, inventory);
            }
        }
    }
    assert(first.run(codes, inventory).1 =~= situation.calls());
}

/// What creating a stream comes to, whatever the calls reply.
///
/// It ends with the status of [`CreateSituation::status`]. On success the stream owns one
/// more runtime reference and its devices, and both endpoints are open. A failure leaves
/// the runtime and the leases of the process as they were, but for a capture endpoint
/// that could not be closed again: that one keeps both.
///
/// The calls are those of [`CreateSituation::calls`], none of them twice: none at all for
/// an unsupported request; on success the ring is created before capture is opened and
/// capture before playback; and capture is closed again exactly where playback could not
/// be opened after it.
pub proof fn law_create_outcome<L: Copy>(situation: CreateSituation<L>)
    requires
        situation.runtime.well_formed(),
        situation.runtime.references < usize::MAX,
    ensures
        ({
            let (end, calls) = situation.first().run(situation.codes, situation.inventory);
            &&& calls == situation.calls()
            &&& calls.no_duplicates()
            &&& !situation.request.supported() ==> calls.len() == 0
            &&& situation.status() == AUDIO_OK ==> calls == situation.entering_calls() + seq![
                CreateCall::ReadInventory,
                situation.ring_call(),
                situation.open_call(Endpoint::Capture),
                situation.open_call(Endpoint::Playback),
            ]
            &&& calls.contains(CreateCall::CloseCapture) == situation.misses_playback()
            &&& end.create.next_call is None
            &&& end.create.status == situation.status()
            &&& situation.status() == AUDIO_OK ==> {
                &&& end.create.stream.playback.open
                &&& end.create.stream.capture.open
                &&& end.create.stream.stats == crate::stats::SharedStats::zero()
                &&& end.create.ring == Some(new_ring(situation.request.maximum_frame_count))
            }
            &&& situation.status() == AUDIO_OK || situation.strands_capture() ==> {
                &&& end.runtime == situation.runtime.acquired(situation.functions)
                &&& end.claimed == situation.claimed.union(situation.lease().devices())
                &&& situation.claimed.disjoint(situation.lease().devices())
                &&& end.create.lease == Some(situation.lease())
            }
            &&& situation.status() != AUDIO_OK && !situation.strands_capture() ==> {
                &&& end.runtime == situation.runtime
                &&& end.claimed == situation.claimed
                &&& end.create.lease is None
            }
        }),
{
    lemma_create_run(situation);
    lemma_calls_are_distinct(situation);
    lemma_close_call(situation);
}

/// What a stream is opened with is what the caller asked for, each direction from its own
/// fields. Creating it succeeds exactly for a mono input at 48000 Hz, where PortAudio can be
/// used, both devices can be opened and are free, the block size suits a ring, and the ring
/// and both endpoints could be made. The capture endpoint is opened on the input device with
/// the input's channels, the playback endpoint on the output device with the output's, both
/// at the caller's rate and block size.
pub proof fn law_create_opens_what_was_asked<L: Copy, T, C>(
    config: StreamConfig<T, C>,
    validated: ValidatedStreamConfig<T, C>,
    situation: CreateSituation<L>,
)
    requires
        config.acceptable(),
        validated.describes(config),
        situation.request == validated.opening(),
        situation.runtime.well_formed(),
        situation.runtime.references < usize::MAX,
    ensures
        ({
            let (end, calls) = situation.first().run(situation.codes, situation.inventory);
            let input = crate::devices::resolved_device(
                situation.inventory,
                config.input_device_index,
                config.input_device_channels as usize,
                true,
            );
            let output = crate::devices::resolved_device(
                situation.inventory,
                config.output_device_index,
                config.output_device_channels as usize,
                false,
            );
            let open_capture = CreateCall::Open {
                endpoint: Endpoint::Capture,
                parameters: input->Ok_0,
                sample_rate_hz: config.native_sample_rate_hz,
                frames_per_buffer: config.maximum_frame_count as usize,
            };
            let open_playback = CreateCall::Open {
                endpoint: Endpoint::Playback,
                parameters: output->Ok_0,
                sample_rate_hz: config.native_sample_rate_hz,
                frames_per_buffer: config.maximum_frame_count as usize,
            };
            let block = config.maximum_frame_count as usize;
            let make_ring = CreateCall::<L>::CreateRing(
                RingConfig {
                    abi_version: 2,
                    capacity_samples: crate::capture_ring::ring_capacity(block as int) as u64,
                    input_rate_hz: 48_000,
                    output_rate_hz: 48_000,
                    quality: 0,
                },
            );
            &&& end.create.status == 0 <==> {
                &&& config.input_device_channels == 1
                &&& config.native_sample_rate_hz == 48_000
                &&& situation.runtime.references == 0 || situation.runtime.functions == Some(
                    situation.functions,
                )
                &&& situation.runtime.references == 0 ==> (situation.codes)(CreateCall::Initialize)
                    == 0
                &&& input is Ok && output is Ok
                &&& !situation.claimed.contains(input->Ok_0.device)
                &&& !situation.claimed.contains(output->Ok_0.device)
                &&& 0 < config.maximum_frame_count <= 0x3fff_ffff
                &&& (situation.codes)(make_ring) == 0
                &&& (situation.codes)(open_capture) == 0
                &&& (situation.codes)(open_playback) == 0
            }
            &&& end.create.status == 0 ==> {
                let n = calls.len() as int;
                &&& n >= 4
                &&& calls[n - 3] == make_ring
                &&& calls[n - 2] == open_capture
                &&& calls[n - 1] == open_playback
                &&& end.create.lease == Some(
                    DeviceLease {
                        input_device: input->Ok_0.device,
                        output_device: output->Ok_0.device,
                    },
                )
                &&& end.claimed.contains(input->Ok_0.device) && end.claimed.contains(
                    output->Ok_0.device,
                )
                &&& end.runtime.references == situation.runtime.references + 1
                &&& end.runtime.functions == Some(situation.functions)
            }
            &&& end.create.status != 0 && situation.claimed.contains(input->Ok_0.device)
                && input is Ok && output is Ok && config.input_device_channels == 1
                && config.native_sample_rate_hz == 48_000 && situation.acquires()
                ==> end.create.status == AUDIO_DEVICE_BUSY
            &&& (config.input_device_channels != 1 || config.native_sample_rate_hz != 48_000)
                ==> end.create.status == AUDIO_UNSUPPORTED && calls.len() == 0
        }),
{
    lemma_create_run(situation);
    lemma_calls_are_distinct(situation);
    crate::devices::law_device_is_opened_in_its_direction(
        situation.inventory,
        config.input_device_index,
        config.input_device_channels as usize,
        true,
    );
    crate::devices::law_device_is_opened_in_its_direction(
        situation.inventory,
        config.output_device_index,
        config.output_device_channels as usize,
        false,
    );
}

} // verus!
