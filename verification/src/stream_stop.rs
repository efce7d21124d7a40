//! Stopping both endpoints of a stream.
//!
//! Capture and playback are two PortAudio streams. Stopping or aborting one joins its
//! callback, after which its context may be reused.
use vstd::prelude::*;

use crate::abi::{AUDIO_OK, AUDIO_PORTAUDIO_ERROR};
use crate::stats::{SharedStats, PA_NO_ERROR};

verus! {

/// One of the two PortAudio streams behind an adapter stream.
#[derive(Clone, Copy, Debug, PartialEq, Eq, Structural)]
pub enum Endpoint {
    Playback,
    Capture,
}

/// What the control plane knows of one endpoint.
#[derive(Clone, Copy, Debug, PartialEq, Eq, Structural)]
pub struct EndpointState {
    /// PortAudio holds an open stream for the endpoint.
    pub open: bool,
    /// The endpoint was started, and has been neither stopped nor aborted since.
    pub started: bool,
}

/// The control plane's view of one stream.
#[derive(Clone, Copy, Debug, PartialEq, Eq)]
pub struct StreamControl {
    pub playback: EndpointState,
    pub capture: EndpointState,
    pub stats: SharedStats,
}

impl StreamControl {
    /// The state of one endpoint.
    pub open spec fn endpoint(self, endpoint: Endpoint) -> EndpointState {
        match endpoint {
            Endpoint::Playback => self.playback,
            Endpoint::Capture => self.capture,
        }
    }

    /// The stream with one endpoint marked as started or not.
    pub open spec fn with_started(self, endpoint: Endpoint, started: bool) -> StreamControl {
        match endpoint {
            Endpoint::Playback => StreamControl {
                playback: EndpointState { started, ..self.playback },
                ..self
            },
            Endpoint::Capture => StreamControl {
                capture: EndpointState { started, ..self.capture },
                ..self
            },
        }
    }

    /// The stream with one endpoint marked as open or not.
    pub open spec fn with_open(self, endpoint: Endpoint, open: bool) -> StreamControl {
        match endpoint {
            Endpoint::Playback => StreamControl {
                playback: EndpointState { open, ..self.playback },
                ..self
            },
            Endpoint::Capture => StreamControl {
                capture: EndpointState { open, ..self.capture },
                ..self
            },
        }
    }

    /// The stream with one more recorded PortAudio error.
    pub open spec fn with_error(self, error: i32) -> StreamControl {
        StreamControl { stats: self.stats.error_recorded(error), ..self }
    }

    /// The stream of a request that nothing has been done for.
    pub open spec fn fresh() -> StreamControl {
        StreamControl {
            playback: EndpointState { open: false, started: false },
            capture: EndpointState { open: false, started: false },
            stats: SharedStats::zero(),
        }
    }

    /// Creates the control state of a stream without open endpoints.
    pub fn new() -> (stream: StreamControl)
        ensures
            stream == StreamControl::fresh(),
    {
        StreamControl {
            playback: EndpointState { open: false, started: false },
            capture: EndpointState { open: false, started: false },
            stats: SharedStats::default(),
        }
    }

    /// Returns the state of one endpoint.
    pub fn state(&self, endpoint: Endpoint) -> (state: EndpointState)
        ensures
            state == self.endpoint(endpoint),
    {
        match endpoint {
            Endpoint::Playback => self.playback,
            Endpoint::Capture => self.capture,
        }
    }

    /// Marks one endpoint as started or not.
    pub fn mark_started(&mut self, endpoint: Endpoint, started: bool)
        ensures
            *final(self) == old(self).with_started(endpoint, started),
    {
        match endpoint {
            Endpoint::Playback => {
                self.playback.started = started;
            },
            Endpoint::Capture => {
                self.capture.started = started;
            },
        }
    }

    /// Marks one endpoint as open or not.
    pub fn mark_open(&mut self, endpoint: Endpoint, open: bool)
        ensures
            *final(self) == old(self).with_open(endpoint, open),
    {
        match endpoint {
            Endpoint::Playback => {
                self.playback.open = open;
            },
            Endpoint::Capture => {
                self.capture.open = open;
            },
        }
    }
}

/// A PortAudio call that stopping needs. Each replies with PortAudio's own code.
#[derive(Clone, Copy, Debug, PartialEq, Eq, Structural)]
pub enum StopCall {
    /// Ask whether the endpoint is active: one, zero or a negative error.
    Active(Endpoint),
    /// Stop the endpoint after its queued buffers.
    Stop(Endpoint),
    /// Stop the endpoint at once.
    Abort(Endpoint),
}

/// Stops every open endpoint, playback first, and the second even if the first fails.
#[derive(Clone, Copy, Debug, PartialEq, Eq)]
pub struct StopEndpoints {
    /// The call to make next; none once both endpoints have been seen to.
    pub next_call: Option<StopCall>,
    /// The result so far.
    pub status: i32,
}

/// The first call for `endpoint`, or for the one after it where it is not open.
pub open spec fn stop_from(stream: StreamControl, endpoint: Endpoint) -> Option<StopCall> {
    if stream.endpoint(endpoint).open {
        Some(StopCall::Active(endpoint))
    } else if endpoint == Endpoint::Playback && stream.capture.open {
        Some(StopCall::Active(Endpoint::Capture))
    } else {
        None
    }
}

/// The first call after `endpoint` has been seen to.
pub open spec fn stop_past(stream: StreamControl, endpoint: Endpoint) -> Option<StopCall> {
    if endpoint == Endpoint::Playback {
        stop_from(stream, Endpoint::Capture)
    } else {
        None
    }
}

impl StopEndpoints {
    /// The operation before its first call.
    pub open spec fn initial(stream: StreamControl) -> StopEndpoints {
        StopEndpoints { next_call: stop_from(stream, Endpoint::Playback), status: AUDIO_OK }
    }

    /// An upper bound on the calls that are still to be made.
    pub open spec fn calls_left(self) -> nat {
        match self.next_call {
            Some(StopCall::Active(Endpoint::Playback)) => 6,
            Some(StopCall::Stop(Endpoint::Playback)) => 5,
            Some(StopCall::Abort(Endpoint::Playback)) => 4,
            Some(StopCall::Active(Endpoint::Capture)) => 3,
            Some(StopCall::Stop(Endpoint::Capture)) => 2,
            Some(StopCall::Abort(Endpoint::Capture)) => 1,
            None => 0,
        }
    }

    /// The operation and the stream after the next call replied `code`.
    pub open spec fn after(self, stream: StreamControl, code: i32) -> (
        StopEndpoints,
        StreamControl,
    ) {
        match self.next_call {
            Some(StopCall::Active(endpoint)) => if code == 0 && !stream.endpoint(
                endpoint,
            ).started {
                (StopEndpoints { next_call: stop_past(stream, endpoint), ..self }, stream)
            } else if code < 0 {
                (
                    StopEndpoints { next_call: Some(StopCall::Abort(endpoint)), ..self },
                    stream.with_error(code),
                )
            } else {
                (StopEndpoints { next_call: Some(StopCall::Stop(endpoint)), ..self }, stream)
            },
            Some(StopCall::Stop(endpoint)) => if code == PA_NO_ERROR {
                (
                    StopEndpoints { next_call: stop_past(stream, endpoint), ..self },
                    stream.with_started(endpoint, false),
                )
            } else {
                (
                    StopEndpoints { next_call: Some(StopCall::Abort(endpoint)), ..self },
                    stream.with_error(code),
                )
            },
            Some(StopCall::Abort(endpoint)) => (
                StopEndpoints {
                    next_call: stop_past(stream, endpoint),
                    status: AUDIO_PORTAUDIO_ERROR,
                },
                if code == PA_NO_ERROR {
                    stream.with_started(endpoint, false)
                } else {
                    stream.with_error(code)
                },
            ),
            None => (self, stream),
        }
    }

    /// The operation, the stream and the calls made, once every call has been replied
    /// to as `codes` says.
    pub open spec fn run(self, stream: StreamControl, codes: spec_fn(StopCall) -> i32) -> (
        StopEndpoints,
        StreamControl,
        Seq<StopCall>,
    )
        decreases self.calls_left(),
    {
        match self.next_call {
            Some(call) => {
                let (next, next_stream) = self.after(stream, codes(call));
                let (end, end_stream, calls) = next.run(next_stream, codes);
                (end, end_stream, seq![call] + calls)
            },
            None => (self, stream, Seq::empty()),
        }
    }

    /// Starts to stop the open endpoints of `stream`.
    pub fn begin(stream: &StreamControl) -> (stop: StopEndpoints)
        ensures
            stop == StopEndpoints::initial(*stream),
    {
        StopEndpoints { next_call: next_from(stream, Endpoint::Playback), status: AUDIO_OK }
    }

    /// The call to make next, or none when the operation is over.
    pub fn call(&self) -> (call: Option<StopCall>)
        ensures
            call == self.next_call,
    {
        self.next_call
    }

    /// Takes the reply to the call that was due.
    pub fn reply(&mut self, stream: &mut StreamControl, code: i32)
        requires
            old(self).next_call is Some,
        ensures
            (*final(self), *final(stream)) == old(self).after(*old(stream), code),
    {
        match self.next_call {
            Some(StopCall::Active(endpoint)) => {
                if code == 0 && !stream.state(endpoint).started {
                    self.next_call = next_past(stream, endpoint);
                } else if code < 0 {
                    stream.stats.record_portaudio_error(code);
                    self.next_call = Some(StopCall::Abort(endpoint));
                } else {
                    self.next_call = Some(StopCall::Stop(endpoint));
                }
            },
            Some(StopCall::Stop(endpoint)) => {
                if code == PA_NO_ERROR {
                    self.next_call = next_past(stream, endpoint);
                    stream.mark_started(endpoint, false);
                } else {
                    stream.stats.record_portaudio_error(code);
                    self.next_call = Some(StopCall::Abort(endpoint));
                }
            },
            Some(StopCall::Abort(endpoint)) => {
                self.next_call = next_past(stream, endpoint);
                self.status = AUDIO_PORTAUDIO_ERROR;
                if code == PA_NO_ERROR {
                    stream.mark_started(endpoint, false);
                } else {
                    stream.stats.record_portaudio_error(code);
                }
            },
            None => {},
        }
    }
}

fn next_from(stream: &StreamControl, endpoint: Endpoint) -> (call: Option<StopCall>)
    ensures
        call == stop_from(*stream, endpoint),
{
    if stream.state(endpoint).open {
        Some(StopCall::Active(endpoint))
    } else if endpoint == Endpoint::Playback && stream.capture.open {
        Some(StopCall::Active(Endpoint::Capture))
    } else {
        None
    }
}

fn next_past(stream: &StreamControl, endpoint: Endpoint) -> (call: Option<StopCall>)
    ensures
        call == stop_past(*stream, endpoint),
{
    match endpoint {
        Endpoint::Playback => next_from(stream, Endpoint::Capture),
        Endpoint::Capture => None,
    }
}

/// The endpoint is open, and active or not yet joined.
///
/// An error in place of the activity counts as active.
pub open spec fn must_stop(
    state: EndpointState,
    endpoint: Endpoint,
    codes: spec_fn(StopCall) -> i32,
) -> bool {
    state.open && (state.started || codes(StopCall::Active(endpoint)) != 0)
}

/// The endpoint's activity is known, and stopping it works.
pub open spec fn stops_cleanly(endpoint: Endpoint, codes: spec_fn(StopCall) -> i32) -> bool {
    codes(StopCall::Active(endpoint)) >= 0 && codes(StopCall::Stop(endpoint)) == PA_NO_ERROR
}

/// The calls that stopping one endpoint makes.
pub open spec fn endpoint_calls(
    state: EndpointState,
    endpoint: Endpoint,
    codes: spec_fn(StopCall) -> i32,
) -> Seq<StopCall> {
    let active = StopCall::Active(endpoint);
    let stop = StopCall::Stop(endpoint);
    let abort = StopCall::Abort(endpoint);
    if !state.open {
        Seq::empty()
    } else if !must_stop(state, endpoint, codes) {
        seq![active]
    } else if codes(active) < 0 {
        seq![active, abort]
    } else if stops_cleanly(endpoint, codes) {
        seq![active, stop]
    } else {
        seq![active, stop, abort]
    }
}

/// The stream after one endpoint has been seen to.
pub open spec fn endpoint_stopped(
    stream: StreamControl,
    endpoint: Endpoint,
    codes: spec_fn(StopCall) -> i32,
) -> StreamControl {
    let failure = if codes(StopCall::Active(endpoint)) < 0 {
        codes(StopCall::Active(endpoint))
    } else {
        codes(StopCall::Stop(endpoint))
    };
    if !must_stop(stream.endpoint(endpoint), endpoint, codes) {
        stream
    } else if stops_cleanly(endpoint, codes) {
        stream.with_started(endpoint, false)
    } else if codes(StopCall::Abort(endpoint)) == PA_NO_ERROR {
        stream.with_error(failure).with_started(endpoint, false)
    } else {
        stream.with_error(failure).with_error(codes(StopCall::Abort(endpoint)))
    }
}

/// The stream after both endpoints have been seen to.
pub open spec fn both_stopped(
    stream: StreamControl,
    codes: spec_fn(StopCall) -> i32,
) -> StreamControl {
    endpoint_stopped(
        endpoint_stopped(stream, Endpoint::Playback, codes),
        Endpoint::Capture,
        codes,
    )
}

/// Every endpoint that had to be stopped could be.
pub open spec fn stop_succeeds(stream: StreamControl, codes: spec_fn(StopCall) -> i32) -> bool {
    &&& must_stop(stream.playback, Endpoint::Playback, codes) ==> stops_cleanly(
        Endpoint::Playback,
        codes,
    )
    &&& must_stop(stream.capture, Endpoint::Capture, codes) ==> stops_cleanly(
        Endpoint::Capture,
        codes,
    )
}

/// Whatever PortAudio replies, stopping sees to playback and then to capture, each on
/// its own: one endpoint's failure changes neither the calls for the other nor what
/// becomes of it.
pub proof fn law_stop_attempts_both_endpoints(
    stream: StreamControl,
    codes: spec_fn(StopCall) -> i32,
)
    ensures
        StopEndpoints::initial(stream).run(stream, codes) == (
            StopEndpoints {
                next_call: None,
                status: if stop_succeeds(stream, codes) {
                    AUDIO_OK
                } else {
                    AUDIO_PORTAUDIO_ERROR
                },
            },
            both_stopped(stream, codes),
            endpoint_calls(stream.playback, Endpoint::Playback, codes) + endpoint_calls(
                stream.capture,
                Endpoint::Capture,
                codes,
            ),
        ),
{
    let playback_calls = endpoint_calls(stream.playback, Endpoint::Playback, codes);
    let capture_calls = endpoint_calls(stream.capture, Endpoint::Capture, codes);
    let whole = StopEndpoints::initial(stream);
    let status = if must_stop(stream.playback, Endpoint::Playback, codes) && !stops_cleanly(
        Endpoint::Playback,
        codes,
    ) {
        AUDIO_PORTAUDIO_ERROR
    } else {
        AUDIO_OK
    };
    let middle = endpoint_stopped(stream, Endpoint::Playback, codes);
    let half = StopEndpoints { next_call: stop_from(middle, Endpoint::Capture), status };
    lemma_open_flags_stay(stream, Endpoint::Playback, codes);
    assert(middle.capture == stream.capture);
    if stream.playback.open {
        lemma_run_endpoint(whole, stream, Endpoint::Playback, codes);
    } else {
        assert(whole == half);
        assert(middle == stream);
    }
    let (end, end_stream, calls) = half.run(middle, codes);
    assert(whole.run(stream, codes) == (end, end_stream, playback_calls + calls)) by {
        assert(Seq::<StopCall>::empty() + calls =~= calls);
    }
    if stream.capture.open {
        lemma_run_endpoint(half, middle, Endpoint::Capture, codes);
        assert(capture_calls + Seq::<StopCall>::empty() =~= capture_calls);
    }
}

proof fn lemma_open_flags_stay(
    stream: StreamControl,
    endpoint: Endpoint,
    codes: spec_fn(StopCall) -> i32,
)
    ensures
        endpoint_stopped(stream, endpoint, codes).playback.open == stream.playback.open,
        endpoint_stopped(stream, endpoint, codes).capture.open == stream.capture.open,
        endpoint == Endpoint::Playback ==> endpoint_stopped(stream, endpoint, codes).capture
            == stream.capture,
        endpoint == Endpoint::Capture ==> endpoint_stopped(stream, endpoint, codes).playback
            == stream.playback,
{
}

/// One endpoint is seen to with its own calls, and the rest follows.
proof fn lemma_run_endpoint(
    stop: StopEndpoints,
    stream: StreamControl,
    endpoint: Endpoint,
    codes: spec_fn(StopCall) -> i32,
)
    requires
        stop.next_call == Some(StopCall::Active(endpoint)),
        stream.endpoint(endpoint).open,
    ensures
        ({
            let rest = StopEndpoints {
                next_call: stop_past(stream, endpoint),
                status: if must_stop(stream.endpoint(endpoint), endpoint, codes) && !stops_cleanly(
                    endpoint,
                    codes,
                ) {
                    AUDIO_PORTAUDIO_ERROR
                } else {
                    stop.status
                },
            };
            let (end, end_stream, calls) = rest.run(
                endpoint_stopped(stream, endpoint, codes),
                codes,
            );
            stop.run(stream, codes) == (
                end,
                end_stream,
                endpoint_calls(stream.endpoint(endpoint), endpoint, codes) + calls,
            )
        }),
{
    let active = StopCall::Active(endpoint);
    let stop_call = StopCall::Stop(endpoint);
    let abort = StopCall::Abort(endpoint);
    let (first, first_stream) = stop.after(stream, codes(active));
    let (_, _, first_calls) = first.run(first_stream, codes);
    assert(stop.run(stream, codes).2 == seq![active] + first_calls);
    if must_stop(stream.endpoint(endpoint), endpoint, codes) {
        if codes(active) < 0 {
            let (second, second_stream) = first.after(first_stream, codes(abort));
            let calls = second.run(second_stream, codes).2;
            assert(first.run(first_stream, codes).2 == seq![abort] + calls);
            assert(stop_past(first_stream, endpoint) == stop_past(stream, endpoint));
            assert(seq![active] + (seq![abort] + calls) =~= seq![active, abort] + calls);
        } else {
            let (second, second_stream) = first.after(first_stream, codes(stop_call));
            let second_calls = second.run(second_stream, codes).2;
            assert(first.run(first_stream, codes).2 == seq![stop_call] + second_calls);
            if stops_cleanly(endpoint, codes) {
                assert(seq![active] + (seq![stop_call] + second_calls) =~= seq![active, stop_call]
                    + second_calls);
            } else {
                let (third, third_stream) = second.after(second_stream, codes(abort));
                let calls = third.run(third_stream, codes).2;
                assert(second.run(second_stream, codes).2 == seq![abort] + calls);
                assert(stop_past(second_stream, endpoint) == stop_past(stream, endpoint));
                assert(seq![active] + (seq![stop_call] + (seq![abort] + calls)) =~= seq![
                    active,
                    stop_call,
                    abort,
                ] + calls);
            }
        }
    }
}

/// A successful stop leaves no open endpoint started.
pub proof fn law_successful_stop_joins_every_endpoint(
    stream: StreamControl,
    codes: spec_fn(StopCall) -> i32,
)
    requires
        stop_succeeds(stream, codes),
    ensures
        stream.playback.open ==> !both_stopped(stream, codes).playback.started,
        stream.capture.open ==> !both_stopped(stream, codes).capture.started,
        both_stopped(stream, codes).stats == stream.stats,
{
}

/// Stopping never opens, closes or starts an endpoint.
pub proof fn law_stop_only_joins(stream: StreamControl, codes: spec_fn(StopCall) -> i32)
    ensures
        both_stopped(stream, codes).playback.open == stream.playback.open,
        both_stopped(stream, codes).capture.open == stream.capture.open,
        both_stopped(stream, codes).playback.started ==> stream.playback.started,
        both_stopped(stream, codes).capture.started ==> stream.capture.started,
{
}

/// Marking an endpoint changes that mark of that endpoint alone, and recording an error the
/// statistics alone.
pub proof fn law_marks_touch_one_endpoint(
    stream: StreamControl,
    endpoint: Endpoint,
    mark: bool,
    error: i32,
)
    ensures
        stream.endpoint(Endpoint::Playback) == stream.playback,
        stream.endpoint(Endpoint::Capture) == stream.capture,
        ({
            let started = stream.with_started(endpoint, mark);
            &&& started.stats == stream.stats
            &&& started.playback.open == stream.playback.open && started.capture.open
                == stream.capture.open
            &&& started.playback.started == if endpoint is Playback {
                mark
            } else {
                stream.playback.started
            }
            &&& started.capture.started == if endpoint is Capture {
                mark
            } else {
                stream.capture.started
            }
        }),
        ({
            let opened = stream.with_open(endpoint, mark);
            &&& opened.stats == stream.stats
            &&& opened.playback.started == stream.playback.started && opened.capture.started
                == stream.capture.started
            &&& opened.playback.open == if endpoint is Playback {
                mark
            } else {
                stream.playback.open
            }
            &&& opened.capture.open == if endpoint is Capture {
                mark
            } else {
                stream.capture.open
            }
        }),
        ({
            let failed = stream.with_error(error);
            &&& failed.playback == stream.playback && failed.capture == stream.capture
            &&& failed.stats.last_portaudio_error == error
        }),
{
}

/// How one endpoint is stopped, whatever becomes of the other. An open endpoint is asked
/// whether it is active. It is stopped where it is active or was started and not joined, and
/// aborted where its activity is unknown or stopping failed. It counts as started afterwards
/// only where neither the stop nor the abort worked. Stopping succeeds exactly where nothing
/// had to be aborted.
pub proof fn law_endpoint_is_stopped_then_aborted(
    stream: StreamControl,
    codes: spec_fn(StopCall) -> i32,
    endpoint: Endpoint,
)
    ensures
        ({
            let (end, end_stream, calls) = StopEndpoints::initial(stream).run(stream, codes);
            let before = if endpoint is Playback {
                stream.playback
            } else {
                stream.capture
            };
            let after = if endpoint is Playback {
                end_stream.playback
            } else {
                end_stream.capture
            };
            let active = codes(StopCall::Active(endpoint));
            let stops = before.open && active >= 0 && (active > 0 || before.started);
            let aborts = before.open && (active < 0 || stops && codes(StopCall::Stop(endpoint))
                != 0);
            &&& calls.contains(StopCall::Active(endpoint)) == before.open
            &&& calls.contains(StopCall::Stop(endpoint)) == stops
            &&& calls.contains(StopCall::Abort(endpoint)) == aborts
            &&& after.open == before.open
            &&& after.started == (before.started && !(stops && codes(StopCall::Stop(endpoint)) == 0)
                && !(aborts && codes(StopCall::Abort(endpoint)) == 0))
            &&& end.next_call is None
            &&& aborts ==> end.status == AUDIO_PORTAUDIO_ERROR
            &&& !calls.contains(StopCall::Abort(Endpoint::Playback)) && !calls.contains(
                StopCall::Abort(Endpoint::Capture),
            ) ==> end.status == AUDIO_OK && end_stream.stats == stream.stats
            &&& calls.no_duplicates()
        }),
{
    law_stop_attempts_both_endpoints(stream, codes);
    let playback = endpoint_calls(stream.playback, Endpoint::Playback, codes);
    let capture = endpoint_calls(stream.capture, Endpoint::Capture, codes);
    lemma_own_calls(stream.playback, Endpoint::Playback, codes);
    lemma_own_calls(stream.capture, Endpoint::Capture, codes);
    let calls = playback + capture;
    lemma_joined_contains(playback, capture, StopCall::Active(endpoint));
    lemma_joined_contains(playback, capture, StopCall::Stop(endpoint));
    lemma_joined_contains(playback, capture, StopCall::Abort(endpoint));
    lemma_joined_contains(playback, capture, StopCall::Abort(Endpoint::Playback));
    lemma_joined_contains(playback, capture, StopCall::Abort(Endpoint::Capture));
    assert forall|i: int, j: int| 0 <= i < calls.len() && 0 <= j < calls.len() && i
        != j implies calls[i] != calls[j] by {}
}

proof fn lemma_joined_contains(first: Seq<StopCall>, second: Seq<StopCall>, call: StopCall)
    ensures
        (first + second).contains(call) == (first.contains(call) || second.contains(call)),
{
    let both = first + second;
    if first.contains(call) {
        let i = choose|i: int| 0 <= i < first.len() && first[i] == call;
        assert(both[i] == call);
    }
    if second.contains(call) {
        let i = choose|i: int| 0 <= i < second.len() && second[i] == call;
        assert(both[first.len() + i] == call);
    }
    if both.contains(call) {
        let i = choose|i: int| 0 <= i < both.len() && both[i] == call;
        if i < first.len() {
            assert(first[i] == call);
        } else {
            assert(second[i - first.len()] == call);
        }
    }
}

proof fn lemma_own_calls(
    state: EndpointState,
    endpoint: Endpoint,
    codes: spec_fn(StopCall) -> i32,
)
    ensures
        ({
            let calls = endpoint_calls(state, endpoint, codes);
            let active = codes(StopCall::Active(endpoint));
            let stops = state.open && active >= 0 && (active > 0 || state.started);
            let aborts = state.open && (active < 0 || stops && codes(StopCall::Stop(endpoint)) != 0);
            &&& calls.contains(StopCall::Active(endpoint)) == state.open
            &&& calls.contains(StopCall::Stop(endpoint)) == stops
            &&& calls.contains(StopCall::Abort(endpoint)) == aborts
            &&& forall|i: int|
                0 <= i < calls.len() ==> match #[trigger] calls[i] {
                    StopCall::Active(own) => own == endpoint,
                    StopCall::Stop(own) => own == endpoint,
                    StopCall::Abort(own) => own == endpoint,
                }
        }),
{
    let calls = endpoint_calls(state, endpoint, codes);
    if calls.len() > 0 {
        assert(calls[0] == StopCall::Active(endpoint));
    }
    if calls.len() == 2 {
        assert(calls[1] == calls[1]);
    }
    if calls.len() == 3 {
        assert(calls[1] == StopCall::Stop(endpoint));
        assert(calls[2] == StopCall::Abort(endpoint));
    }
}

/// A stream that nothing has been done for has no open and no started endpoint, and has
/// counted nothing.
pub proof fn law_fresh_stream(endpoint: Endpoint)
    ensures
        !StreamControl::fresh().endpoint(endpoint).open,
        !StreamControl::fresh().endpoint(endpoint).started,
        StreamControl::fresh().stats == SharedStats::zero(),
{
}

} // verus!
