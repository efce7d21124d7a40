//! Closing a stream and giving back what it owned.
use vstd::prelude::*;

use crate::runtime::{portaudio_release, DeviceLease, PortAudioRuntime};
use crate::stats::PA_NO_ERROR;
use crate::stream_create::AdapterProcess;
use crate::stream_stop::{Endpoint, StopCall, StopEndpoints, StreamControl};

verus! {

/// A call that destroying a stream needs. Each replies with PortAudio's own code.
#[derive(Clone, Copy, Debug, PartialEq, Eq, Structural)]
pub enum DestroyCall {
    /// Stop what may still be running.
    Stopping(StopCall),
    /// Close the endpoint.
    Close(Endpoint),
    /// Terminate PortAudio. The reply does not matter.
    Terminate,
}

/// Stops and closes both endpoints of a stream.
///
/// Only once both are closed are its devices and its runtime reference given back, and
/// may its storage be freed: a failed close cannot prove that no callback runs.
#[derive(Debug)]
pub struct StreamDestroy {
    /// The call to make next; none once the operation is over.
    pub next_call: Option<DestroyCall>,
    pub stop: StopEndpoints,
    /// No close has failed so far.
    pub closed: bool,
    /// The stream's storage may be freed.
    pub freed: bool,
    pub functions: usize,
    pub lease: Option<DeviceLease>,
}

/// The operation with the state that it changes.
pub struct DestroyState {
    pub destroy: StreamDestroy,
    pub stream: StreamControl,
    pub runtime: PortAudioRuntime,
    pub claimed: Set<i32>,
}

impl DestroyState {
    /// The operation goes on with `call`, or is over.
    pub open spec fn next(self, call: Option<DestroyCall>) -> DestroyState {
        DestroyState { destroy: StreamDestroy { next_call: call, ..self.destroy }, ..self }
    }

    /// Every endpoint has been dealt with.
    pub open spec fn settled(self) -> DestroyState {
        if !self.destroy.closed {
            self.next(None)
        } else {
            let functions = self.destroy.functions;
            let claimed = match self.destroy.lease {
                Some(lease) => self.claimed.difference(lease.devices()),
                None => self.claimed,
            };
            DestroyState {
                destroy: StreamDestroy { freed: true, lease: None, ..self.destroy },
                runtime: self.runtime.released(functions),
                claimed,
                ..self
            }.next(
                if self.runtime.references == 1 && self.runtime.functions == Some(functions) {
                    Some(DestroyCall::Terminate)
                } else {
                    None
                },
            )
        }
    }

    /// Closing goes on with `endpoint` and whatever comes after it.
    pub open spec fn closing_from(self, endpoint: Endpoint) -> DestroyState {
        if self.stream.endpoint(endpoint).open {
            self.next(Some(DestroyCall::Close(endpoint)))
        } else if endpoint == Endpoint::Playback && self.stream.capture.open {
            self.next(Some(DestroyCall::Close(Endpoint::Capture)))
        } else {
            self.settled()
        }
    }

    /// Closing goes on with what comes after `endpoint`.
    pub open spec fn closing_past(self, endpoint: Endpoint) -> DestroyState {
        match endpoint {
            Endpoint::Playback => self.closing_from(Endpoint::Capture),
            Endpoint::Capture => self.settled(),
        }
    }

    /// The stop has come as far as `stop`. Closing follows, however the stop ended.
    pub open spec fn stopped_as_far_as(self, stop: StopEndpoints) -> DestroyState {
        let followed = DestroyState { destroy: StreamDestroy { stop, ..self.destroy }, ..self };
        match stop.next_call {
            Some(call) => followed.next(Some(DestroyCall::Stopping(call))),
            None => followed.closing_from(Endpoint::Playback),
        }
    }

    /// The state after the call that was due replied `code`.
    pub open spec fn after(self, code: i32) -> DestroyState {
        match self.destroy.next_call {
            Some(DestroyCall::Stopping(_)) => {
                let (stop, stream) = self.destroy.stop.after(self.stream, code);
                DestroyState { stream, ..self }.stopped_as_far_as(stop)
            },
            Some(DestroyCall::Close(endpoint)) => if code == PA_NO_ERROR {
                DestroyState {
                    stream: self.stream.with_open(endpoint, false),
                    ..self
                }.closing_past(endpoint)
            } else {
                DestroyState {
                    destroy: StreamDestroy { closed: false, ..self.destroy },
                    stream: self.stream.with_error(code),
                    ..self
                }.closing_past(endpoint)
            },
            Some(DestroyCall::Terminate) => self.next(None),
            None => self,
        }
    }

    /// An upper bound on the calls that are still to be made.
    pub open spec fn calls_left(self) -> nat {
        match self.destroy.next_call {
            Some(DestroyCall::Stopping(_)) => 4 + self.destroy.stop.calls_left(),
            Some(DestroyCall::Close(Endpoint::Playback)) => 3,
            Some(DestroyCall::Close(Endpoint::Capture)) => 2,
            Some(DestroyCall::Terminate) => 1,
            None => 0,
        }
    }

    /// The state once every call has been replied to as `codes` says.
    pub open spec fn run(self, codes: spec_fn(DestroyCall) -> i32) -> DestroyState
        decreases self.calls_left(),
    {
        match self.destroy.next_call {
            Some(call) => if self.destroy.well_formed() {
                self.after(codes(call)).run(codes)
            } else {
                self
            },
            None => self,
        }
    }
}

impl StreamDestroy {
    /// The operation is in step with the stop it runs.
    pub open spec fn well_formed(self) -> bool {
        self.next_call matches Some(DestroyCall::Stopping(call)) ==> self.stop.next_call == Some(
            call,
        )
    }

    /// The operation together with the state that it changes.
    pub open spec fn state(self, stream: StreamControl, process: AdapterProcess) -> DestroyState {
        DestroyState { destroy: self, stream, runtime: process.runtime, claimed: process.leases@ }
    }

    /// The operation before its first call.
    pub open spec fn blank(functions: usize, lease: Option<DeviceLease>) -> StreamDestroy {
        StreamDestroy {
            next_call: None,
            stop: StopEndpoints { next_call: None, status: crate::abi::AUDIO_OK },
            closed: true,
            freed: false,
            functions,
            lease,
        }
    }

    /// Begins to destroy `stream`, which owns `lease` and a runtime reference through
    /// `functions`.
    pub fn begin(
        stream: &StreamControl,
        process: &mut AdapterProcess,
        functions: usize,
        lease: Option<DeviceLease>,
    ) -> (destroy: StreamDestroy)
        requires
            old(process).runtime.well_formed(),
        ensures
            destroy.well_formed(),
            final(process).runtime.well_formed(),
            destroy.state(*stream, *final(process)) == StreamDestroy::blank(functions, lease).state(
                *stream,
                *old(process),
            ).stopped_as_far_as(StopEndpoints::initial(*stream)),
    {
        let mut destroy = StreamDestroy {
            next_call: None,
            stop: StopEndpoints { next_call: None, status: crate::abi::AUDIO_OK },
            closed: true,
            freed: false,
            functions,
            lease,
        };
        destroy.follow_stop(stream, process, StopEndpoints::begin(stream));
        destroy
    }

    /// The call to make next, or none when the operation is over.
    pub fn call(&self) -> (call: Option<DestroyCall>)
        ensures
            call == self.next_call,
    {
        self.next_call
    }

    fn settle(&mut self, stream: &StreamControl, process: &mut AdapterProcess)
        requires
            old(process).runtime.well_formed(),
        ensures
            final(self).well_formed(),
            final(process).runtime.well_formed(),
            final(self).state(*stream, *final(process)) == old(self).state(
                *stream,
                *old(process),
            ).settled(),
    {
        self.next_call = None;
        if self.closed {
            match self.lease.take() {
                Some(lease) => {
                    lease.release(&mut process.leases);
                },
                None => {},
            }
            self.freed = true;
            if portaudio_release(&mut process.runtime, self.functions) {
                self.next_call = Some(DestroyCall::Terminate);
            }
        }
    }

    fn close_from(
        &mut self,
        stream: &StreamControl,
        process: &mut AdapterProcess,
        endpoint: Endpoint,
    )
        requires
            old(process).runtime.well_formed(),
        ensures
            final(self).well_formed(),
            final(process).runtime.well_formed(),
            final(self).state(*stream, *final(process)) == old(self).state(
                *stream,
                *old(process),
            ).closing_from(endpoint),
    {
        if stream.state(endpoint).open {
            self.next_call = Some(DestroyCall::Close(endpoint));
        } else if endpoint == Endpoint::Playback && stream.capture.open {
            self.next_call = Some(DestroyCall::Close(Endpoint::Capture));
        } else {
            self.settle(stream, process);
        }
    }

    fn follow_stop(
        &mut self,
        stream: &StreamControl,
        process: &mut AdapterProcess,
        stop: StopEndpoints,
    )
        requires
            old(process).runtime.well_formed(),
        ensures
            final(self).well_formed(),
            final(process).runtime.well_formed(),
            final(self).state(*stream, *final(process)) == old(self).state(
                *stream,
                *old(process),
            ).stopped_as_far_as(stop),
    {
        self.stop = stop;
        match stop.next_call {
            Some(call) => {
                self.next_call = Some(DestroyCall::Stopping(call));
            },
            None => {
                self.close_from(stream, process, Endpoint::Playback);
            },
        }
    }

    /// Takes the reply to the call that was due.
    pub fn reply(&mut self, stream: &mut StreamControl, process: &mut AdapterProcess, code: i32)
        requires
            old(self).well_formed(),
            old(self).next_call is Some,
            old(process).runtime.well_formed(),
        ensures
            final(self).well_formed(),
            final(process).runtime.well_formed(),
            final(self).state(*final(stream), *final(process)) == old(self).state(
                *old(stream),
                *old(process),
            ).after(code),
    {
        match self.next_call {
            Some(DestroyCall::Stopping(_)) => {
                let mut stop = self.stop;
                stop.reply(stream, code);
                self.follow_stop(stream, process, stop);
            },
            Some(DestroyCall::Close(endpoint)) => {
                if code == PA_NO_ERROR {
                    stream.mark_open(endpoint, false);
                } else {
                    stream.stats.record_portaudio_error(code);
                    self.closed = false;
                }
                match endpoint {
                    Endpoint::Playback => {
                        self.close_from(stream, process, Endpoint::Capture);
                    },
                    Endpoint::Capture => {
                        self.settle(stream, process);
                    },
                }
            },
            _ => {
                self.next_call = None;
            },
        }
    }
}

/// Every open endpoint could be closed.
pub open spec fn closes(stream: StreamControl, codes: spec_fn(DestroyCall) -> i32) -> bool {
    &&& stream.playback.open ==> codes(DestroyCall::Close(Endpoint::Playback)) == PA_NO_ERROR
    &&& stream.capture.open ==> codes(DestroyCall::Close(Endpoint::Capture)) == PA_NO_ERROR
}

proof fn lemma_destroy_step(state: DestroyState, codes: spec_fn(DestroyCall) -> i32)
    requires
        state.destroy.well_formed(),
        state.destroy.next_call is Some,
    ensures
        state.run(codes) == state.after(codes(state.destroy.next_call->0)).run(codes),
{
}

proof fn lemma_settled(state: DestroyState, codes: spec_fn(DestroyCall) -> i32)
    requires
        state.runtime.well_formed(),
    ensures
        ({
            let end = state.settled().run(codes);
            &&& end.destroy.next_call is None
            &&& end.stream == state.stream
            &&& !state.destroy.closed ==> {
                &&& end.destroy.freed == state.destroy.freed
                &&& end.destroy.lease == state.destroy.lease
                &&& end.runtime == state.runtime
                &&& end.claimed == state.claimed
            }
            &&& state.destroy.closed ==> {
                &&& end.destroy.freed
                &&& end.destroy.lease is None
                &&& end.runtime == state.runtime.released(state.destroy.functions)
                &&& end.claimed == match state.destroy.lease {
                    Some(lease) => state.claimed.difference(lease.devices()),
                    None => state.claimed,
                }
            }
        }),
{
    let settled = state.settled();
    if settled.destroy.next_call is Some {
        lemma_destroy_step(settled, codes);
    }
}

proof fn lemma_closing(state: DestroyState, codes: spec_fn(DestroyCall) -> i32)
    requires
        state.runtime.well_formed(),
        state.destroy.closed,
        !state.destroy.freed,
    ensures
        ({
            let end = state.closing_from(Endpoint::Playback).run(codes);
            &&& end.destroy.next_call is None
            &&& end.destroy.freed == closes(state.stream, codes)
            &&& end.stream.playback.open == (state.stream.playback.open && codes(
                DestroyCall::Close(Endpoint::Playback),
            ) != PA_NO_ERROR)
            &&& end.stream.capture.open == (state.stream.capture.open && codes(
                DestroyCall::Close(Endpoint::Capture),
            ) != PA_NO_ERROR)
            &&& !closes(state.stream, codes) ==> {
                &&& end.destroy.lease == state.destroy.lease
                &&& end.runtime == state.runtime
                &&& end.claimed == state.claimed
            }
            &&& closes(state.stream, codes) ==> {
                &&& end.destroy.lease is None
                &&& end.runtime == state.runtime.released(state.destroy.functions)
                &&& end.claimed == match state.destroy.lease {
                    Some(lease) => state.claimed.difference(lease.devices()),
                    None => state.claimed,
                }
            }
        }),
{
    let playback = codes(DestroyCall::Close(Endpoint::Playback));
    let capture = codes(DestroyCall::Close(Endpoint::Capture));
    let halfway = if !state.stream.playback.open {
        state
    } else {
        lemma_destroy_step(state.closing_from(Endpoint::Playback), codes);
        if playback == PA_NO_ERROR {
            DestroyState { stream: state.stream.with_open(Endpoint::Playback, false), ..state }
        } else {
            DestroyState {
                destroy: StreamDestroy { closed: false, ..state.destroy },
                stream: state.stream.with_error(playback),
                ..state
            }
        }
    };
    assert(state.closing_from(Endpoint::Playback).run(codes) == halfway.closing_from(
        Endpoint::Capture,
    ).run(codes)) by {
        if state.stream.playback.open {
            let calling = state.closing_from(Endpoint::Playback);
            assert(calling.after(playback) == halfway.closing_from(Endpoint::Capture));
        }
    }
    if halfway.stream.capture.open {
        let calling = halfway.closing_from(Endpoint::Capture);
        lemma_destroy_step(calling, codes);
        let last = if capture == PA_NO_ERROR {
            DestroyState { stream: halfway.stream.with_open(Endpoint::Capture, false), ..halfway }
        } else {
            DestroyState {
                destroy: StreamDestroy { closed: false, ..halfway.destroy },
                stream: halfway.stream.with_error(capture),
                ..halfway
            }
        };
        assert(calling.after(capture) == last.settled());
        lemma_settled(last, codes);
    } else {
        lemma_settled(halfway, codes);
    }
}

/// Stopping, on the way to closing, opens and closes nothing.
proof fn lemma_stopping_first(
    state: DestroyState,
    stop: StopEndpoints,
    codes: spec_fn(DestroyCall) -> i32,
)
    ensures
        ({
            let stop_codes = |call: StopCall| codes(DestroyCall::Stopping(call));
            let (end_stop, stopped, _) = stop.run(state.stream, stop_codes);
            &&& end_stop.next_call is None
            &&& state.stopped_as_far_as(stop).run(codes) == DestroyState {
                stream: stopped,
                ..state
            }.stopped_as_far_as(end_stop).run(codes)
        }),
    decreases stop.calls_left(),
{
    let stop_codes = |call: StopCall| codes(DestroyCall::Stopping(call));
    match stop.next_call {
        None => {
            assert(DestroyState { stream: state.stream, ..state } == state);
        },
        Some(call) => {
            let (next_stop, next_stream) = stop.after(state.stream, stop_codes(call));
            let next_state = DestroyState { stream: next_stream, ..state };
            lemma_stopping_first(next_state, next_stop, codes);
            let following = state.stopped_as_far_as(stop);
            lemma_destroy_step(following, codes);
            assert(following.after(stop_codes(call)) == next_state.stopped_as_far_as(next_stop));
        },
    }
}

/// What destroying a stream comes to, whatever the calls reply.
///
/// The storage may be freed, and devices and runtime reference are given back, exactly
/// when every open endpoint could be closed; a failed close keeps all three. Neither a
/// failed stop nor the failed close of one endpoint keeps the other from being closed: an
/// endpoint stays open exactly where its own close failed.
pub proof fn law_destroy_outcome(
    stream: StreamControl,
    runtime: PortAudioRuntime,
    claimed: Set<i32>,
    functions: usize,
    lease: Option<DeviceLease>,
    codes: spec_fn(DestroyCall) -> i32,
)
    requires
        runtime.well_formed(),
    ensures
        ({
            let first = DestroyState {
                destroy: StreamDestroy::blank(functions, lease),
                stream,
                runtime,
                claimed,
            };
            let end = first.stopped_as_far_as(StopEndpoints::initial(stream)).run(codes);
            &&& end.destroy.next_call is None
            &&& end.destroy.freed == closes(stream, codes)
            &&& end.stream.playback.open == (stream.playback.open && codes(
                DestroyCall::Close(Endpoint::Playback),
            ) != PA_NO_ERROR)
            &&& end.stream.capture.open == (stream.capture.open && codes(
                DestroyCall::Close(Endpoint::Capture),
            ) != PA_NO_ERROR)
            &&& !closes(stream, codes) ==> {
                &&& end.destroy.lease == lease
                &&& end.runtime == runtime
                &&& end.claimed == claimed
            }
            &&& closes(stream, codes) ==> {
                &&& end.destroy.lease is None
                &&& end.runtime == runtime.released(functions)
                &&& end.claimed == match lease {
                    Some(lease) => claimed.difference(lease.devices()),
                    None => claimed,
                }
            }
        }),
{
    let first = DestroyState {
        destroy: StreamDestroy::blank(functions, lease),
        stream,
        runtime,
        claimed,
    };
    let stop_codes = |call: StopCall| codes(DestroyCall::Stopping(call));
    let stop = StopEndpoints::initial(stream);
    lemma_stopping_first(first, stop, codes);
    crate::stream_stop::law_stop_attempts_both_endpoints(stream, stop_codes);
    crate::stream_stop::law_stop_only_joins(stream, stop_codes);
    let (end_stop, stopped, _) = stop.run(stream, stop_codes);
    let closing = DestroyState {
        destroy: StreamDestroy { stop: end_stop, ..first.destroy },
        stream: stopped,
        ..first
    };
    assert(DestroyState { stream: stopped, ..first }.stopped_as_far_as(end_stop)
        == closing.closing_from(Endpoint::Playback));
    lemma_closing(closing, codes);
}

/// Destroying a stream undoes creating it: a stream that took a runtime reference and a
/// lease of free devices leaves the process as it found it, once both endpoints are
/// closed.
pub proof fn law_destroy_undoes_create(
    stream: StreamControl,
    runtime: PortAudioRuntime,
    claimed: Set<i32>,
    functions: usize,
    lease: DeviceLease,
    codes: spec_fn(DestroyCall) -> i32,
)
    requires
        runtime.well_formed(),
        runtime.references < usize::MAX,
        runtime.compatible(functions),
        claimed.disjoint(lease.devices()),
        closes(stream, codes),
    ensures
        ({
            let first = DestroyState {
                destroy: StreamDestroy::blank(functions, Some(lease)),
                stream,
                runtime: runtime.acquired(functions),
                claimed: claimed.union(lease.devices()),
            };
            let end = first.stopped_as_far_as(StopEndpoints::initial(stream)).run(codes);
            end.runtime == runtime && end.claimed == claimed
        }),
{
    law_destroy_outcome(
        stream,
        runtime.acquired(functions),
        claimed.union(lease.devices()),
        functions,
        Some(lease),
        codes,
    );
    crate::runtime::law_release_undoes_acquire(runtime, functions);
    crate::runtime::law_lease_release_undoes_acquire(claimed, lease);
}

/// A stream is freed exactly where no endpoint is left open; then, and only then, its devices
/// can be had by others again and its runtime reference is gone.
pub proof fn law_freed_means_closed(
    stream: StreamControl,
    runtime: PortAudioRuntime,
    claimed: Set<i32>,
    functions: usize,
    lease: DeviceLease,
    codes: spec_fn(DestroyCall) -> i32,
)
    requires
        runtime.well_formed(),
        runtime.references > 0,
        runtime.functions == Some(functions),
    ensures
        ({
            let first = DestroyState {
                destroy: StreamDestroy::blank(functions, Some(lease)),
                stream,
                runtime,
                claimed,
            };
            let end = first.stopped_as_far_as(StopEndpoints::initial(stream)).run(codes);
            &&& end.destroy.freed == (!end.stream.playback.open && !end.stream.capture.open)
            &&& end.destroy.freed ==> {
                &&& !end.claimed.contains(lease.input_device)
                &&& !end.claimed.contains(lease.output_device)
                &&& forall|device: i32|
                    device != lease.input_device && device != lease.output_device
                        ==> #[trigger] end.claimed.contains(device) == claimed.contains(device)
                &&& end.runtime.references == runtime.references - 1
            }
            &&& !end.destroy.freed ==> {
                &&& end.claimed == claimed
                &&& end.runtime == runtime
                &&& end.destroy.lease == Some(lease)
            }
        }),
{
    law_destroy_outcome(stream, runtime, claimed, functions, Some(lease), codes);
}

} // verus!
