//! Starting a stream at the highest real-time priority.
//!
//! PortAudio's callback threads inherit the scheduling of the thread that starts
//! them, so the caller is elevated for the two start calls and restored on every
//! path. No scheduling call runs inside an audio callback.
use vstd::prelude::*;

use crate::abi::{AUDIO_OK, AUDIO_PORTAUDIO_ERROR};
use crate::stats::{PA_INTERNAL_ERROR, PA_NO_ERROR};
use crate::stream_stop::{Endpoint, StopCall, StopEndpoints, StreamControl};

verus! {

/// Linux's first-in first-out real-time policy.
pub const SCHED_FIFO: i32 = 1;

/// The scheduling policy and priority of a thread.
#[derive(Clone, Copy, Debug, PartialEq, Eq, Structural)]
pub struct Scheduling {
    pub policy: i32,
    pub priority: i32,
}

/// A call that starting needs.
#[derive(Clone, Copy, Debug, PartialEq, Eq, Structural)]
pub enum StartCall {
    /// Ask whether the endpoint is active: one, zero or a negative error.
    Active(Endpoint),
    /// Stop what may still be running.
    Stopping(StopCall),
    /// Keep diagnostic observers off the capture ring until the start is over.
    LockRing,
    /// Replace the capture ring, so that no stale audio is played.
    ResetRing,
    /// Read the caller's scheduling.
    GetScheduling,
    /// Ask for the highest priority of a policy.
    PriorityMax(i32),
    /// Give the caller the highest priority.
    Elevate(Scheduling),
    /// Start the endpoint.
    Start(Endpoint),
    /// Give the caller its own scheduling back.
    Restore(Scheduling),
    /// Ask whether an endpoint that did not start is active all the same.
    Check(Endpoint),
    /// Stop the endpoint at once.
    Abort(Endpoint),
}

/// The reply to a call: its code, zero for success but for [`StartCall::Active`],
/// [`StartCall::Check`] and [`StartCall::PriorityMax`], and the scheduling that
/// [`StartCall::GetScheduling`] read.
#[derive(Clone, Copy, Debug, PartialEq, Eq)]
pub struct StartReply {
    pub code: i32,
    pub scheduling: Scheduling,
}

impl StartReply {
    /// A reply that carries a code alone.
    pub fn code(code: i32) -> (reply: StartReply)
        ensures
            reply.code == code,
    {
        StartReply { code, scheduling: Scheduling { policy: 0, priority: 0 } }
    }
}

/// Starts capture and then playback, unless both are already active.
#[derive(Clone, Copy, Debug, PartialEq, Eq)]
pub struct StreamStart {
    /// The call to make next; none once the operation is over.
    pub next_call: Option<StartCall>,
    /// The result, once the operation is over.
    pub status: i32,
    pub playback_active: i32,
    pub stop: StopEndpoints,
    /// The caller's own scheduling.
    pub saved: Scheduling,
    pub start_result: i32,
    pub restore_result: i32,
}

impl StreamStart {
    /// The operation before its first call.
    pub open spec fn initial() -> StreamStart {
        StreamStart {
            next_call: Some(StartCall::Active(Endpoint::Playback)),
            status: AUDIO_PORTAUDIO_ERROR,
            playback_active: 0,
            stop: StopEndpoints { next_call: None, status: AUDIO_OK },
            saved: Scheduling { policy: 0, priority: 0 },
            start_result: 0,
            restore_result: 0,
        }
    }

    /// The operation is in step with the stop it runs.
    pub open spec fn well_formed(self) -> bool {
        self.next_call matches Some(StartCall::Stopping(call)) ==> self.stop.next_call == Some(
            call,
        )
    }

    /// The operation with `call` to be made next.
    pub open spec fn calling(self, call: StartCall) -> StreamStart {
        StreamStart { next_call: Some(call), ..self }
    }

    /// The operation, over with `status`.
    pub open spec fn over(self, status: i32) -> StreamStart {
        StreamStart { next_call: None, status, ..self }
    }

    /// The operation when the stop has come as far as `stop`.
    pub open spec fn stopped_as_far_as(self, stop: StopEndpoints) -> StreamStart {
        match stop.next_call {
            Some(call) => StreamStart { stop, ..self }.calling(StartCall::Stopping(call)),
            None => if stop.status == AUDIO_OK {
                StreamStart { stop, ..self }.calling(StartCall::LockRing)
            } else {
                StreamStart { stop, ..self }.over(AUDIO_PORTAUDIO_ERROR)
            },
        }
    }

    /// The operation when `endpoint` is the next to be quiesced after a failed start.
    pub open spec fn quiescing(self, stream: StreamControl, endpoint: Endpoint) -> StreamStart {
        if stream.endpoint(endpoint).started {
            self.calling(StartCall::Abort(endpoint))
        } else {
            self.calling(StartCall::Check(endpoint))
        }
    }

    /// The code that a failed start is recorded with.
    pub open spec fn failure(self) -> i32 {
        if self.restore_result != 0 {
            PA_INTERNAL_ERROR
        } else {
            self.start_result
        }
    }

    /// The operation and the stream once `endpoint` is quiesced after a failed start.
    pub open spec fn quiesced(self, stream: StreamControl, endpoint: Endpoint) -> (
        StreamStart,
        StreamControl,
    ) {
        match endpoint {
            Endpoint::Playback => (self.quiescing(stream, Endpoint::Capture), stream),
            Endpoint::Capture => (
                self.over(AUDIO_PORTAUDIO_ERROR),
                stream.with_error(self.failure()),
            ),
        }
    }

    /// The operation and the stream after the next call was replied to.
    pub open spec fn after(self, stream: StreamControl, reply: StartReply) -> (
        StreamStart,
        StreamControl,
    ) {
        let code = reply.code;
        match self.next_call {
            Some(StartCall::Active(Endpoint::Playback)) => (
                StreamStart { playback_active: code, ..self }.calling(
                    StartCall::Active(Endpoint::Capture),
                ),
                stream,
            ),
            Some(StartCall::Active(Endpoint::Capture)) => if self.playback_active < 0 {
                (self.over(AUDIO_PORTAUDIO_ERROR), stream.with_error(self.playback_active))
            } else if code < 0 {
                (self.over(AUDIO_PORTAUDIO_ERROR), stream.with_error(code))
            } else if self.playback_active == 1 && code == 1 {
                (self.over(AUDIO_OK), stream)
            } else {
                (self.stopped_as_far_as(StopEndpoints::initial(stream)), stream)
            },
            Some(StartCall::Stopping(_)) => {
                let (stop, next_stream) = self.stop.after(stream, code);
                (self.stopped_as_far_as(stop), next_stream)
            },
            Some(StartCall::LockRing) => if code != 0 {
                (self.over(AUDIO_PORTAUDIO_ERROR), stream)
            } else {
                (self.calling(StartCall::ResetRing), stream)
            },
            Some(StartCall::ResetRing) => if code != 0 {
                (
                    self.over(AUDIO_PORTAUDIO_ERROR),
                    StreamControl { stats: stream.stats.device_error_counted(), ..stream },
                )
            } else {
                (self.calling(StartCall::GetScheduling), stream)
            },
            Some(StartCall::GetScheduling) => if code != 0 {
                (self.over(AUDIO_PORTAUDIO_ERROR), stream.with_error(PA_INTERNAL_ERROR))
            } else {
                (
                    StreamStart { saved: reply.scheduling, ..self }.calling(
                        StartCall::PriorityMax(SCHED_FIFO),
                    ),
                    stream,
                )
            },
            Some(StartCall::PriorityMax(policy)) => if code < 1 {
                (self.over(AUDIO_PORTAUDIO_ERROR), stream.with_error(PA_INTERNAL_ERROR))
            } else {
                (self.calling(StartCall::Elevate(Scheduling { policy, priority: code })), stream)
            },
            Some(StartCall::Elevate(_)) => if code != 0 {
                (self.over(AUDIO_PORTAUDIO_ERROR), stream.with_error(PA_INTERNAL_ERROR))
            } else {
                (
                    self.calling(StartCall::Start(Endpoint::Capture)),
                    StreamControl { stats: stream.stats.arrival_forgotten(), ..stream },
                )
            },
            Some(StartCall::Start(endpoint)) => {
                let started = StreamStart { start_result: code, ..self };
                if code != PA_NO_ERROR {
                    (started.calling(StartCall::Restore(self.saved)), stream)
                } else if endpoint == Endpoint::Capture {
                    (
                        started.calling(StartCall::Start(Endpoint::Playback)),
                        stream.with_started(endpoint, true),
                    )
                } else {
                    (
                        started.calling(StartCall::Restore(self.saved)),
                        stream.with_started(endpoint, true),
                    )
                }
            },
            Some(StartCall::Restore(_)) => {
                let restored = StreamStart { restore_result: code, ..self };
                if self.start_result == PA_NO_ERROR && code == 0 {
                    (restored.over(AUDIO_OK), stream)
                } else {
                    (restored.quiescing(stream, Endpoint::Playback), stream)
                }
            },
            Some(StartCall::Check(endpoint)) => if code == 0 {
                self.quiesced(stream, endpoint)
            } else {
                (self.calling(StartCall::Abort(endpoint)), stream)
            },
            Some(StartCall::Abort(endpoint)) => if code == PA_NO_ERROR {
                self.quiesced(stream.with_started(endpoint, false), endpoint)
            } else {
                self.quiesced(stream.with_error(code), endpoint)
            },
            None => (self, stream),
        }
    }

    /// An upper bound on the calls that are still to be made.
    pub open spec fn calls_left(self) -> nat {
        match self.next_call {
            Some(StartCall::Active(Endpoint::Playback)) => 20,
            Some(StartCall::Active(Endpoint::Capture)) => 19,
            Some(StartCall::Stopping(_)) => 12 + self.stop.calls_left(),
            Some(StartCall::LockRing) => 12,
            Some(StartCall::ResetRing) => 11,
            Some(StartCall::GetScheduling) => 10,
            Some(StartCall::PriorityMax(_)) => 9,
            Some(StartCall::Elevate(_)) => 8,
            Some(StartCall::Start(Endpoint::Capture)) => 7,
            Some(StartCall::Start(Endpoint::Playback)) => 6,
            Some(StartCall::Restore(_)) => 5,
            Some(StartCall::Check(Endpoint::Playback)) => 4,
            Some(StartCall::Abort(Endpoint::Playback)) => 3,
            Some(StartCall::Check(Endpoint::Capture)) => 2,
            Some(StartCall::Abort(Endpoint::Capture)) => 1,
            None => 0,
        }
    }

    /// The operation, the stream and the calls made, once every call has been replied
    /// to as `replies` says.
    pub open spec fn run(self, stream: StreamControl, replies: spec_fn(StartCall) -> StartReply) -> (
        StreamStart,
        StreamControl,
        Seq<StartCall>,
    )
        decreases self.calls_left(),
    {
        match self.next_call {
            Some(call) => if self.well_formed() {
                let (next, next_stream) = self.after(stream, replies(call));
                let (end, end_stream, calls) = next.run(next_stream, replies);
                (end, end_stream, seq![call] + calls)
            } else {
                (self, stream, Seq::empty())
            },
            None => (self, stream, Seq::empty()),
        }
    }

    /// Starts to start a stream.
    pub fn begin() -> (start: StreamStart)
        ensures
            start == StreamStart::initial(),
            start.well_formed(),
    {
        StreamStart {
            next_call: Some(StartCall::Active(Endpoint::Playback)),
            status: AUDIO_PORTAUDIO_ERROR,
            playback_active: 0,
            stop: StopEndpoints { next_call: None, status: AUDIO_OK },
            saved: Scheduling { policy: 0, priority: 0 },
            start_result: 0,
            restore_result: 0,
        }
    }

    /// The call to make next, or none when the operation is over.
    pub fn call(&self) -> (call: Option<StartCall>)
        ensures
            call == self.next_call,
    {
        self.next_call
    }

    fn finish(&mut self, status: i32)
        ensures
            *final(self) == old(self).over(status),
    {
        self.next_call = None;
        self.status = status;
    }

    fn follow_stop(&mut self, stop: StopEndpoints)
        ensures
            *final(self) == old(self).stopped_as_far_as(stop),
    {
        self.stop = stop;
        match stop.next_call {
            Some(call) => {
                self.next_call = Some(StartCall::Stopping(call));
            },
            None => {
                if stop.status == AUDIO_OK {
                    self.next_call = Some(StartCall::LockRing);
                } else {
                    self.finish(AUDIO_PORTAUDIO_ERROR);
                }
            },
        }
    }

    fn quiesce(&mut self, stream: &StreamControl, endpoint: Endpoint)
        ensures
            *final(self) == old(self).quiescing(*stream, endpoint),
    {
        if stream.state(endpoint).started {
            self.next_call = Some(StartCall::Abort(endpoint));
        } else {
            self.next_call = Some(StartCall::Check(endpoint));
        }
    }

    fn quiesce_past(&mut self, stream: &mut StreamControl, endpoint: Endpoint)
        ensures
            (*final(self), *final(stream)) == old(self).quiesced(*old(stream), endpoint),
    {
        match endpoint {
            Endpoint::Playback => {
                self.quiesce(stream, Endpoint::Capture);
            },
            Endpoint::Capture => {
                let failure: i32 = if self.restore_result != 0 {
                    PA_INTERNAL_ERROR
                } else {
                    self.start_result
                };
                stream.stats.record_portaudio_error(failure);
                self.finish(AUDIO_PORTAUDIO_ERROR);
            },
        }
    }

    fn refuse(&mut self, stream: &mut StreamControl, error: i32)
        ensures
            *final(self) == old(self).over(AUDIO_PORTAUDIO_ERROR),
            *final(stream) == old(stream).with_error(error),
    {
        stream.stats.record_portaudio_error(error);
        self.finish(AUDIO_PORTAUDIO_ERROR);
    }

    /// Takes the reply to the call that was due.
    pub fn reply(&mut self, stream: &mut StreamControl, reply: StartReply)
        requires
            old(self).well_formed(),
            old(self).next_call is Some,
        ensures
            final(self).well_formed(),
            (*final(self), *final(stream)) == old(self).after(*old(stream), reply),
    {
        let code: i32 = reply.code;
        match self.next_call {
            Some(StartCall::Active(Endpoint::Playback)) => {
                self.playback_active = code;
                self.next_call = Some(StartCall::Active(Endpoint::Capture));
            },
            Some(StartCall::Active(Endpoint::Capture)) => {
                if self.playback_active < 0 {
                    let active: i32 = self.playback_active;
                    self.refuse(stream, active);
                } else if code < 0 {
                    self.refuse(stream, code);
                } else if self.playback_active == 1 && code == 1 {
                    self.finish(AUDIO_OK);
                } else {
                    self.follow_stop(StopEndpoints::begin(stream));
                }
            },
            Some(StartCall::Stopping(_)) => {
                let mut stop = self.stop;
                stop.reply(stream, code);
                self.follow_stop(stop);
            },
            Some(StartCall::LockRing) => {
                if code != 0 {
                    self.finish(AUDIO_PORTAUDIO_ERROR);
                } else {
                    self.next_call = Some(StartCall::ResetRing);
                }
            },
            Some(StartCall::ResetRing) => {
                if code != 0 {
                    stream.stats.count_device_error();
                    self.finish(AUDIO_PORTAUDIO_ERROR);
                } else {
                    self.next_call = Some(StartCall::GetScheduling);
                }
            },
            Some(StartCall::GetScheduling) => {
                if code != 0 {
                    self.refuse(stream, PA_INTERNAL_ERROR);
                } else {
                    self.saved = reply.scheduling;
                    self.next_call = Some(StartCall::PriorityMax(SCHED_FIFO));
                }
            },
            Some(StartCall::PriorityMax(policy)) => {
                if code < 1 {
                    self.refuse(stream, PA_INTERNAL_ERROR);
                } else {
                    self.next_call = Some(
                        StartCall::Elevate(Scheduling { policy, priority: code }),
                    );
                }
            },
            Some(StartCall::Elevate(_)) => {
                if code != 0 {
                    self.refuse(stream, PA_INTERNAL_ERROR);
                } else {
                    stream.stats.forget_arrival();
                    self.next_call = Some(StartCall::Start(Endpoint::Capture));
                }
            },
            Some(StartCall::Start(endpoint)) => {
                self.start_result = code;
                if code != PA_NO_ERROR {
                    self.next_call = Some(StartCall::Restore(self.saved));
                } else {
                    stream.mark_started(endpoint, true);
                    if endpoint == Endpoint::Capture {
                        self.next_call = Some(StartCall::Start(Endpoint::Playback));
                    } else {
                        self.next_call = Some(StartCall::Restore(self.saved));
                    }
                }
            },
            Some(StartCall::Restore(_)) => {
                self.restore_result = code;
                if self.start_result == PA_NO_ERROR && code == 0 {
                    self.finish(AUDIO_OK);
                } else {
                    self.quiesce(stream, Endpoint::Playback);
                }
            },
            Some(StartCall::Check(endpoint)) => {
                if code == 0 {
                    self.quiesce_past(stream, endpoint);
                } else {
                    self.next_call = Some(StartCall::Abort(endpoint));
                }
            },
            Some(StartCall::Abort(endpoint)) => {
                if code == PA_NO_ERROR {
                    stream.mark_started(endpoint, false);
                } else {
                    stream.stats.record_portaudio_error(code);
                }
                self.quiesce_past(stream, endpoint);
            },
            None => {},
        }
    }
}

/// The replies to the calls of the stop that a start runs.
pub open spec fn stop_codes(replies: spec_fn(StartCall) -> StartReply) -> spec_fn(StopCall) -> i32 {
    |call: StopCall| replies(StartCall::Stopping(call)).code
}

/// A failed start has to abort the endpoint: it started, or it may be active.
pub open spec fn must_abort(
    stream: StreamControl,
    endpoint: Endpoint,
    replies: spec_fn(StartCall) -> StartReply,
) -> bool {
    stream.endpoint(endpoint).started || replies(StartCall::Check(endpoint)).code != 0
}

/// The calls that quiesce one endpoint after a failed start.
pub open spec fn quiesce_calls(
    stream: StreamControl,
    endpoint: Endpoint,
    replies: spec_fn(StartCall) -> StartReply,
) -> Seq<StartCall> {
    if stream.endpoint(endpoint).started {
        seq![StartCall::Abort(endpoint)]
    } else if must_abort(stream, endpoint, replies) {
        seq![StartCall::Check(endpoint), StartCall::Abort(endpoint)]
    } else {
        seq![StartCall::Check(endpoint)]
    }
}

/// The stream after one endpoint has been quiesced after a failed start.
pub open spec fn quiesce_result(
    stream: StreamControl,
    endpoint: Endpoint,
    replies: spec_fn(StartCall) -> StartReply,
) -> StreamControl {
    let abort = replies(StartCall::Abort(endpoint)).code;
    if !must_abort(stream, endpoint, replies) {
        stream
    } else if abort == PA_NO_ERROR {
        stream.with_started(endpoint, false)
    } else {
        stream.with_error(abort)
    }
}

/// Status, stream and calls of a start from the moment at which the caller, whose own
/// scheduling is `saved`, has been elevated.
pub open spec fn elevated_outcome(
    stream: StreamControl,
    saved: Scheduling,
    replies: spec_fn(StartCall) -> StartReply,
) -> (i32, StreamControl, Seq<StartCall>) {
    let capture = replies(StartCall::Start(Endpoint::Capture)).code;
    let playback = replies(StartCall::Start(Endpoint::Playback)).code;
    let restore = replies(StartCall::Restore(saved)).code;
    let launched = if capture != PA_NO_ERROR {
        stream
    } else if playback != PA_NO_ERROR {
        stream.with_started(Endpoint::Capture, true)
    } else {
        stream.with_started(Endpoint::Capture, true).with_started(Endpoint::Playback, true)
    };
    let calls = if capture != PA_NO_ERROR {
        seq![StartCall::Start(Endpoint::Capture), StartCall::Restore(saved)]
    } else {
        seq![
            StartCall::Start(Endpoint::Capture),
            StartCall::Start(Endpoint::Playback),
            StartCall::Restore(saved),
        ]
    };
    if capture == PA_NO_ERROR && playback == PA_NO_ERROR && restore == 0 {
        (AUDIO_OK, launched, calls)
    } else {
        let failure = if restore != 0 {
            PA_INTERNAL_ERROR
        } else if capture != PA_NO_ERROR {
            capture
        } else {
            playback
        };
        let halfway = quiesce_result(launched, Endpoint::Playback, replies);
        (
            AUDIO_PORTAUDIO_ERROR,
            quiesce_result(halfway, Endpoint::Capture, replies).with_error(failure),
            calls + quiesce_calls(launched, Endpoint::Playback, replies) + quiesce_calls(
                halfway,
                Endpoint::Capture,
                replies,
            ),
        )
    }
}

/// Status, stream and calls of a start from the moment at which both endpoints are
/// quiescent.
pub open spec fn quiescent_outcome(
    stream: StreamControl,
    replies: spec_fn(StartCall) -> StartReply,
) -> (i32, StreamControl, Seq<StartCall>) {
    let saved = replies(StartCall::GetScheduling).scheduling;
    let priority = replies(StartCall::PriorityMax(SCHED_FIFO)).code;
    let highest = Scheduling { policy: SCHED_FIFO, priority };
    let refused = stream.with_error(PA_INTERNAL_ERROR);
    let lock = StartCall::LockRing;
    let reset = StartCall::ResetRing;
    let read = StartCall::GetScheduling;
    let ask = StartCall::PriorityMax(SCHED_FIFO);
    let elevate = StartCall::Elevate(highest);
    if replies(lock).code != 0 {
        (AUDIO_PORTAUDIO_ERROR, stream, seq![lock])
    } else if replies(reset).code != 0 {
        (
            AUDIO_PORTAUDIO_ERROR,
            StreamControl { stats: stream.stats.device_error_counted(), ..stream },
            seq![lock, reset],
        )
    } else if replies(read).code != 0 {
        (AUDIO_PORTAUDIO_ERROR, refused, seq![lock, reset, read])
    } else if priority < 1 {
        (AUDIO_PORTAUDIO_ERROR, refused, seq![lock, reset, read, ask])
    } else if replies(elevate).code != 0 {
        (AUDIO_PORTAUDIO_ERROR, refused, seq![lock, reset, read, ask, elevate])
    } else {
        let (status, end_stream, calls) = elevated_outcome(
            StreamControl { stats: stream.stats.arrival_forgotten(), ..stream },
            saved,
            replies,
        );
        (status, end_stream, seq![lock, reset, read, ask, elevate] + calls)
    }
}

/// Status, stream and calls of a whole start.
pub open spec fn start_outcome(
    stream: StreamControl,
    replies: spec_fn(StartCall) -> StartReply,
) -> (i32, StreamControl, Seq<StartCall>) {
    let playback = replies(StartCall::Active(Endpoint::Playback)).code;
    let capture = replies(StartCall::Active(Endpoint::Capture)).code;
    let asked = seq![StartCall::Active(Endpoint::Playback), StartCall::Active(Endpoint::Capture)];
    if playback < 0 {
        (AUDIO_PORTAUDIO_ERROR, stream.with_error(playback), asked)
    } else if capture < 0 {
        (AUDIO_PORTAUDIO_ERROR, stream.with_error(capture), asked)
    } else if playback == 1 && capture == 1 {
        (AUDIO_OK, stream, asked)
    } else {
        let (stop, stopped, stop_calls) = StopEndpoints::initial(stream).run(
            stream,
            stop_codes(replies),
        );
        let stopping = asked + stop_calls.map_values(|call: StopCall| StartCall::Stopping(call));
        if stop.status != AUDIO_OK {
            (AUDIO_PORTAUDIO_ERROR, stopped, stopping)
        } else {
            let (status, end_stream, calls) = quiescent_outcome(stopped, replies);
            (status, end_stream, stopping + calls)
        }
    }
}

proof fn lemma_step(
    start: StreamStart,
    stream: StreamControl,
    replies: spec_fn(StartCall) -> StartReply,
)
    requires
        start.well_formed(),
        start.next_call is Some,
    ensures
        ({
            let call = start.next_call->0;
            let (next, next_stream) = start.after(stream, replies(call));
            let (end, end_stream, calls) = next.run(next_stream, replies);
            start.run(stream, replies) == (end, end_stream, seq![call] + calls)
        }),
{
}

/// One endpoint of a failed start is quiesced with its own calls, and the rest follows.
proof fn lemma_run_quiesce(
    start: StreamStart,
    stream: StreamControl,
    endpoint: Endpoint,
    replies: spec_fn(StartCall) -> StartReply,
)
    ensures
        ({
            let (rest, rest_stream) = start.quiesced(
                quiesce_result(stream, endpoint, replies),
                endpoint,
            );
            let (end, end_stream, calls) = rest.run(rest_stream, replies);
            start.quiescing(stream, endpoint).run(stream, replies) == (
                end,
                end_stream,
                quiesce_calls(stream, endpoint, replies) + calls,
            )
        }),
{
    let check = StartCall::Check(endpoint);
    let abort = StartCall::Abort(endpoint);
    let first = start.quiescing(stream, endpoint);
    lemma_step(first, stream, replies);
    if !stream.endpoint(endpoint).started && replies(check).code != 0 {
        let second = first.calling(abort);
        lemma_step(second, stream, replies);
        let (third, third_stream) = second.after(stream, replies(abort));
        let calls = third.run(third_stream, replies).2;
        assert(seq![check] + (seq![abort] + calls) =~= seq![check, abort] + calls);
    }
    let (rest, rest_stream) = start.quiesced(quiesce_result(stream, endpoint, replies), endpoint);
    if endpoint == Endpoint::Playback {
        assert(start.calling(abort).quiescing(rest_stream, Endpoint::Capture) == rest);
        assert(start.calling(check).quiescing(rest_stream, Endpoint::Capture) == rest);
    } else {
        assert(start.calling(abort).over(AUDIO_PORTAUDIO_ERROR) == rest);
        assert(start.calling(check).over(AUDIO_PORTAUDIO_ERROR) == rest);
    }
}

proof fn lemma_run_elevated(
    start: StreamStart,
    stream: StreamControl,
    replies: spec_fn(StartCall) -> StartReply,
)
    requires
        start.next_call == Some(StartCall::Start(Endpoint::Capture)),
    ensures
        ({
            let (end, end_stream, calls) = start.run(stream, replies);
            &&& end.next_call is None
            &&& (end.status, end_stream, calls) == elevated_outcome(stream, start.saved, replies)
        }),
{
    let capture_call = StartCall::Start(Endpoint::Capture);
    let playback_call = StartCall::Start(Endpoint::Playback);
    let restore_call = StartCall::Restore(start.saved);
    let capture = replies(capture_call).code;
    lemma_step(start, stream, replies);
    let (first, first_stream) = start.after(stream, replies(capture_call));
    lemma_step(first, first_stream, replies);
    let (second, second_stream) = first.after(first_stream, replies(first.next_call->0));
    if capture == PA_NO_ERROR {
        lemma_step(second, second_stream, replies);
    }
    let restoring = if capture == PA_NO_ERROR {
        second
    } else {
        first
    };
    let launched = if capture == PA_NO_ERROR {
        second_stream
    } else {
        first_stream
    };
    assert(restoring.next_call == Some(restore_call));
    let (third, third_stream) = restoring.after(launched, replies(restore_call));
    let (end, end_stream, calls) = third.run(third_stream, replies);
    let before = if capture == PA_NO_ERROR {
        seq![capture_call, playback_call, restore_call]
    } else {
        seq![capture_call, restore_call]
    };
    assert(start.run(stream, replies) == (end, end_stream, before + calls)) by {
        assert(seq![capture_call] + (seq![playback_call] + (seq![restore_call] + calls)) =~= seq![
            capture_call,
            playback_call,
            restore_call,
        ] + calls);
        assert(seq![capture_call] + (seq![restore_call] + calls) =~= seq![
            capture_call,
            restore_call,
        ] + calls);
    }
    assert(before + Seq::<StartCall>::empty() =~= before);
    if third.next_call is Some {
        lemma_run_quiesce(third, launched, Endpoint::Playback, replies);
        let halfway = quiesce_result(launched, Endpoint::Playback, replies);
        assert(third.quiescing(launched, Endpoint::Playback) == third);
        let playback_calls = quiesce_calls(launched, Endpoint::Playback, replies);
        let capture_calls = quiesce_calls(halfway, Endpoint::Capture, replies);
        lemma_run_quiesce(third, halfway, Endpoint::Capture, replies);
        assert(before + (playback_calls + (capture_calls + Seq::<StartCall>::empty())) =~= before
            + playback_calls + capture_calls);
    }
}

proof fn lemma_run_quiescent(
    start: StreamStart,
    stream: StreamControl,
    replies: spec_fn(StartCall) -> StartReply,
)
    requires
        start.next_call == Some(StartCall::LockRing),
    ensures
        ({
            let (end, end_stream, calls) = start.run(stream, replies);
            &&& end.next_call is None
            &&& (end.status, end_stream, calls) == quiescent_outcome(stream, replies)
        }),
{
    let lock = StartCall::LockRing;
    let reset = StartCall::ResetRing;
    let read = StartCall::GetScheduling;
    let ask = StartCall::PriorityMax(SCHED_FIFO);
    let priority = replies(ask).code;
    let elevate = StartCall::Elevate(Scheduling { policy: SCHED_FIFO, priority });
    let none = Seq::<StartCall>::empty();
    lemma_step(start, stream, replies);
    if replies(lock).code != 0 {
        assert(seq![lock] + none =~= seq![lock]);
    } else {
        let resetting = start.calling(reset);
        lemma_step(resetting, stream, replies);
        if replies(reset).code != 0 {
            assert(seq![lock] + (seq![reset] + none) =~= seq![lock, reset]);
        } else {
            let reading = resetting.calling(read);
            lemma_step(reading, stream, replies);
            if replies(read).code != 0 {
                assert(seq![lock] + (seq![reset] + (seq![read] + none)) =~= seq![
                    lock,
                    reset,
                    read,
                ]);
            } else {
                let asking = reading.after(stream, replies(read)).0;
                lemma_step(asking, stream, replies);
                if priority < 1 {
                    assert(seq![lock] + (seq![reset] + (seq![read] + (seq![ask] + none)))
                        =~= seq![lock, reset, read, ask]);
                } else {
                    let elevating = asking.calling(elevate);
                    lemma_step(elevating, stream, replies);
                    let (starting, fresh_stream) = elevating.after(stream, replies(elevate));
                    let calls = starting.run(fresh_stream, replies).2;
                    assert(seq![lock] + (seq![reset] + (seq![read] + (seq![ask] + (seq![elevate]
                        + calls)))) =~= seq![lock, reset, read, ask, elevate] + calls);
                    if replies(elevate).code == 0 {
                        lemma_run_elevated(starting, fresh_stream, replies);
                    } else {
                        assert(seq![lock, reset, read, ask, elevate] + none =~= seq![
                            lock,
                            reset,
                            read,
                            ask,
                            elevate,
                        ]);
                    }
                }
            }
        }
    }
}

/// A start follows the stop it runs, call by call.
proof fn lemma_run_stopping(
    start: StreamStart,
    stop: StopEndpoints,
    stream: StreamControl,
    replies: spec_fn(StartCall) -> StartReply,
)
    ensures
        ({
            let (end_stop, stopped, stop_calls) = stop.run(stream, stop_codes(replies));
            let (end, end_stream, calls) = start.stopped_as_far_as(end_stop).run(stopped, replies);
            &&& end_stop.next_call is None
            &&& start.stopped_as_far_as(stop).run(stream, replies) == (
                end,
                end_stream,
                stop_calls.map_values(|call: StopCall| StartCall::Stopping(call)) + calls,
            )
        }),
    decreases stop.calls_left(),
{
    let wrap = |call: StopCall| StartCall::Stopping(call);
    let (end_stop, stopped, stop_calls) = stop.run(stream, stop_codes(replies));
    let calls = start.stopped_as_far_as(end_stop).run(stopped, replies).2;
    match stop.next_call {
        None => {
            assert(Seq::<StopCall>::empty().map_values(wrap) + calls =~= calls);
        },
        Some(call) => {
            let (next_stop, next_stream) = stop.after(stream, stop_codes(replies)(call));
            let next_calls = next_stop.run(next_stream, stop_codes(replies)).2;
            lemma_run_stopping(start, next_stop, next_stream, replies);
            let following = start.stopped_as_far_as(stop);
            lemma_step(following, stream, replies);
            assert(following.stopped_as_far_as(next_stop) == start.stopped_as_far_as(next_stop));
            assert((seq![call] + next_calls).map_values(wrap) + calls =~= seq![
                StartCall::Stopping(call),
            ] + (next_calls.map_values(wrap) + calls));
        },
    }
}

/// Whatever the calls reply, a start comes to its end, and `start_outcome` says with
/// which status, in which stream and through which calls.
pub proof fn law_start_outcome(stream: StreamControl, replies: spec_fn(StartCall) -> StartReply)
    ensures
        ({
            let (end, end_stream, calls) = StreamStart::initial().run(stream, replies);
            &&& end.next_call is None
            &&& (end.status, end_stream, calls) == start_outcome(stream, replies)
        }),
{
    let ask_playback = StartCall::Active(Endpoint::Playback);
    let ask_capture = StartCall::Active(Endpoint::Capture);
    let none = Seq::<StartCall>::empty();
    let first = StreamStart::initial();
    lemma_step(first, stream, replies);
    let second = first.after(stream, replies(ask_playback)).0;
    lemma_step(second, stream, replies);
    let (third, third_stream) = second.after(stream, replies(ask_capture));
    let calls = third.run(third_stream, replies).2;
    assert(seq![ask_playback] + (seq![ask_capture] + calls) =~= seq![ask_playback, ask_capture]
        + calls);
    assert(seq![ask_playback, ask_capture] + none =~= seq![ask_playback, ask_capture]);
    let playback = replies(ask_playback).code;
    let capture = replies(ask_capture).code;
    if playback >= 0 && capture >= 0 && !(playback == 1 && capture == 1) {
        let stop = StopEndpoints::initial(stream);
        lemma_run_stopping(second, stop, stream, replies);
        let (end_stop, stopped, stop_calls) = stop.run(stream, stop_codes(replies));
        let wrapped = stop_calls.map_values(|call: StopCall| StartCall::Stopping(call));
        let locking = second.stopped_as_far_as(end_stop);
        let rest = locking.run(stopped, replies).2;
        assert(seq![ask_playback, ask_capture] + (wrapped + rest) =~= seq![
            ask_playback,
            ask_capture,
        ] + wrapped + rest);
        if end_stop.status == AUDIO_OK {
            lemma_run_quiescent(locking, stopped, replies);
        } else {
            assert(seq![ask_playback, ask_capture] + wrapped + none =~= seq![
                ask_playback,
                ask_capture,
            ] + wrapped);
        }
    }
}

/// A start succeeds exactly when both endpoints are already active, or when everything
/// that may be running could be stopped, the ring could be locked and reset, the caller
/// could be elevated to the highest priority and restored, and both endpoints started.
pub open spec fn start_succeeds(
    stream: StreamControl,
    replies: spec_fn(StartCall) -> StartReply,
) -> bool {
    let playback = replies(StartCall::Active(Endpoint::Playback)).code;
    let capture = replies(StartCall::Active(Endpoint::Capture)).code;
    let saved = replies(StartCall::GetScheduling).scheduling;
    let priority = replies(StartCall::PriorityMax(SCHED_FIFO)).code;
    &&& playback >= 0
    &&& capture >= 0
    &&& (playback == 1 && capture == 1) || {
        &&& crate::stream_stop::stop_succeeds(stream, stop_codes(replies))
        &&& replies(StartCall::LockRing).code == 0
        &&& replies(StartCall::ResetRing).code == 0
        &&& replies(StartCall::GetScheduling).code == 0
        &&& priority >= 1
        &&& replies(StartCall::Elevate(Scheduling { policy: SCHED_FIFO, priority })).code == 0
        &&& replies(StartCall::Start(Endpoint::Capture)).code == PA_NO_ERROR
        &&& replies(StartCall::Start(Endpoint::Playback)).code == PA_NO_ERROR
        &&& replies(StartCall::Restore(saved)).code == 0
    }
}

/// A start reports success exactly on the replies of `start_succeeds`. Where it did not
/// find both endpoints active, it then leaves both of them started, no error recorded
/// and no earlier callback to measure the next one against; where it did, it changes
/// nothing.
pub proof fn law_start_success(stream: StreamControl, replies: spec_fn(StartCall) -> StartReply)
    ensures
        ({
            let (status, end_stream, _) = start_outcome(stream, replies);
            let running = replies(StartCall::Active(Endpoint::Playback)).code == 1 && replies(
                StartCall::Active(Endpoint::Capture),
            ).code == 1;
            &&& status == AUDIO_OK || status == AUDIO_PORTAUDIO_ERROR
            &&& status == AUDIO_OK <==> start_succeeds(stream, replies)
            &&& status == AUDIO_OK && running ==> end_stream == stream
            &&& status == AUDIO_OK && !running ==> {
                &&& end_stream.playback.started
                &&& end_stream.capture.started
                &&& end_stream.stats == stream.stats.arrival_forgotten()
            }
        }),
{
    crate::stream_stop::law_stop_attempts_both_endpoints(stream, stop_codes(replies));
    if crate::stream_stop::stop_succeeds(stream, stop_codes(replies)) {
        crate::stream_stop::law_successful_stop_joins_every_endpoint(stream, stop_codes(replies));
    }
}

/// A start that fails once the caller was elevated aborts what it started and whatever
/// became active, and leaves an endpoint marked as started only where that abort failed.
pub proof fn law_failed_start_quiesces(
    stream: StreamControl,
    saved: Scheduling,
    replies: spec_fn(StartCall) -> StartReply,
    endpoint: Endpoint,
)
    ensures
        ({
            let (status, end_stream, calls) = elevated_outcome(stream, saved, replies);
            status != AUDIO_OK && end_stream.endpoint(endpoint).started ==> calls.contains(
                StartCall::Abort(endpoint),
            ) && replies(StartCall::Abort(endpoint)).code != PA_NO_ERROR
        }),
{
    let (status, end_stream, calls) = elevated_outcome(stream, saved, replies);
    let abort = StartCall::Abort(endpoint);
    let capture = replies(StartCall::Start(Endpoint::Capture)).code;
    let playback = replies(StartCall::Start(Endpoint::Playback)).code;
    let launched = if capture != PA_NO_ERROR {
        stream
    } else if playback != PA_NO_ERROR {
        stream.with_started(Endpoint::Capture, true)
    } else {
        stream.with_started(Endpoint::Capture, true).with_started(Endpoint::Playback, true)
    };
    if status != AUDIO_OK && end_stream.endpoint(endpoint).started {
        let halfway = quiesce_result(launched, Endpoint::Playback, replies);
        let playback_calls = quiesce_calls(launched, Endpoint::Playback, replies);
        let capture_calls = quiesce_calls(halfway, Endpoint::Capture, replies);
        let before = calls.len() - playback_calls.len() - capture_calls.len();
        if endpoint == Endpoint::Playback {
            assert(playback_calls.last() == abort);
            assert(calls[before + playback_calls.len() - 1] == abort);
        } else {
            assert(capture_calls.last() == abort);
            assert(calls.last() == abort);
        }
    }
}

/// The cause that a failed start leaves as the last recorded error: the scheduler's
/// where elevating or restoring the caller failed, and otherwise the code of the start
/// call that failed.
pub proof fn law_failed_start_reports_its_cause(
    stream: StreamControl,
    replies: spec_fn(StartCall) -> StartReply,
)
    requires
        replies(StartCall::LockRing).code == 0,
        replies(StartCall::ResetRing).code == 0,
        quiescent_outcome(stream, replies).0 != AUDIO_OK,
    ensures
        ({
            let (_, end_stream, calls) = quiescent_outcome(stream, replies);
            let saved = replies(StartCall::GetScheduling).scheduling;
            let capture = replies(StartCall::Start(Endpoint::Capture)).code;
            let playback = replies(StartCall::Start(Endpoint::Playback)).code;
            end_stream.stats.last_portaudio_error == if calls.len() <= 5 || replies(
                StartCall::Restore(saved),
            ).code != 0 {
                PA_INTERNAL_ERROR
            } else if capture != PA_NO_ERROR {
                capture
            } else {
                playback
            }
        }),
{
}

/// `calls[index]` gave the caller the highest priority.
pub open spec fn elevates(
    calls: Seq<StartCall>,
    index: int,
    replies: spec_fn(StartCall) -> StartReply,
) -> bool {
    0 <= index < calls.len() && calls[index] is Elevate && replies(calls[index]).code == 0
}

/// `calls[index]` gives the caller back the scheduling that was read from it.
pub open spec fn restores(
    calls: Seq<StartCall>,
    index: int,
    replies: spec_fn(StartCall) -> StartReply,
) -> bool {
    0 <= index < calls.len() && calls[index] == StartCall::Restore(
        replies(StartCall::GetScheduling).scheduling,
    )
}

/// The caller's scheduling is changed and restored in pairs: nothing starts outside the
/// elevated stretch, every elevation is followed by a restoration, and there is no
/// second restoration, nor one without an elevation before it.
pub open spec fn scheduling_is_bracketed(
    calls: Seq<StartCall>,
    replies: spec_fn(StartCall) -> StartReply,
) -> bool {
    &&& forall|i: int|
        0 <= i < calls.len() && (#[trigger] calls[i]) is Start ==> exists|e: int, r: int|
            e < i < r && elevates(calls, e, replies) && restores(calls, r, replies)
    &&& forall|e: int| #[trigger]
        elevates(calls, e, replies) ==> exists|r: int| e < r && restores(calls, r, replies)
    &&& forall|i: int|
        0 <= i < calls.len() && (#[trigger] calls[i]) is Restore ==> restores(calls, i, replies)
            && exists|e: int| e < i && elevates(calls, e, replies)
    &&& forall|i: int, j: int|
        0 <= i < calls.len() && 0 <= j < calls.len() && (#[trigger] calls[i]) is Restore && (
        #[trigger] calls[j]) is Restore ==> i == j
}

/// On every path through a start, whatever fails, the caller keeps its own scheduling or
/// has it restored exactly once, and the endpoints start only while it is elevated.
pub proof fn law_start_restores_the_caller(
    stream: StreamControl,
    replies: spec_fn(StartCall) -> StartReply,
)
    ensures
        scheduling_is_bracketed(start_outcome(stream, replies).2, replies),
{
    let (_, _, calls) = start_outcome(stream, replies);
    let asked = seq![StartCall::Active(Endpoint::Playback), StartCall::Active(Endpoint::Capture)];
    let (stop, stopped, stop_calls) = StopEndpoints::initial(stream).run(
        stream,
        stop_codes(replies),
    );
    let stopping = asked + stop_calls.map_values(|call: StopCall| StartCall::Stopping(call));
    let n = stopping.len() as int;
    assert forall|i: int| 0 <= i < n implies (#[trigger] stopping[i]) is Active || stopping[i]
        is Stopping by {
        if i >= 2 {
            assert(stopping[i] == StartCall::Stopping(stop_calls[i - 2]));
        }
    }
    if calls.len() > n + 5 {
        // The caller was elevated; the restoration comes right after the start calls.
        let tail = quiescent_outcome(stopped, replies).2;
        assert(calls =~= stopping + tail);
        let e = n + 4;
        let r = if replies(StartCall::Start(Endpoint::Capture)).code != PA_NO_ERROR {
            n + 6
        } else {
            n + 7
        };
        assert forall|i: int| n <= i < calls.len() implies calls[i] == #[trigger] tail[i - n] by {
        }
        assert(calls[e] == tail[4]);
        assert(elevates(calls, e, replies));
        assert(calls[r] == tail[r - n]);
        assert(restores(calls, r, replies));
        lemma_only_quiescing_after_restore(
            StreamControl { stats: stopped.stats.arrival_forgotten(), ..stopped },
            replies(StartCall::GetScheduling).scheduling,
            replies,
        );
        assert forall|i: int| 0 <= i < calls.len() implies ({
            &&& (#[trigger] calls[i]) is Start ==> e < i < r
            &&& calls[i] is Restore ==> i == r
            &&& calls[i] is Elevate ==> i == e
        }) by {
            if i < n {
                assert(calls[i] == stopping[i]);
            } else {
                assert(calls[i] == tail[i - n]);
                if i >= n + 5 {
                    assert(tail[i - n] == elevated_outcome(
                        StreamControl { stats: stopped.stats.arrival_forgotten(), ..stopped },
                        replies(StartCall::GetScheduling).scheduling,
                        replies,
                    ).2[i - n - 5]);
                }
            }
        }
    } else {
        assert forall|i: int| 0 <= i < calls.len() implies !((#[trigger] calls[i]) is Start)
            && !(calls[i] is Restore) && !elevates(calls, i, replies) by {
            if i < n && calls.len() >= n {
                assert(calls[i] == stopping[i]);
            }
        }
    }
}

proof fn lemma_only_quiescing_after_restore(
    stream: StreamControl,
    saved: Scheduling,
    replies: spec_fn(StartCall) -> StartReply,
)
    ensures
        ({
            let calls = elevated_outcome(stream, saved, replies).2;
            let r: int = if replies(StartCall::Start(Endpoint::Capture)).code != PA_NO_ERROR {
                1
            } else {
                2
            };
            &&& calls.len() > r
            &&& forall|i: int| 0 <= i < r ==> (#[trigger] calls[i]) is Start
            &&& calls[r] == StartCall::Restore(saved)
            &&& forall|i: int|
                r < i < calls.len() ==> (#[trigger] calls[i]) is Check || calls[i] is Abort
        }),
{
}

/// A start that succeeds, and did not find both endpoints active, ends with exactly these
/// calls: the ring is locked and replaced, the caller's scheduling read, the highest priority
/// of the first-in first-out policy asked for and given to the caller, capture started, then
/// playback, and the caller's own scheduling given back.
pub proof fn law_start_order(stream: StreamControl, replies: spec_fn(StartCall) -> StartReply)
    ensures
        ({
            let (end, end_stream, calls) = StreamStart::initial().run(stream, replies);
            let running = replies(StartCall::Active(Endpoint::Playback)).code == 1 && replies(
                StartCall::Active(Endpoint::Capture),
            ).code == 1;
            let n = calls.len() as int;
            &&& calls[0] == StartCall::Active(Endpoint::Playback)
            &&& calls[1] == StartCall::Active(Endpoint::Capture)
            &&& running ==> end.status == 0 && n == 2 && end_stream == stream
            &&& end.status == 0 && !running ==> {
                &&& n >= 10
                &&& calls[n - 8] == StartCall::LockRing
                &&& calls[n - 7] == StartCall::ResetRing
                &&& calls[n - 6] == StartCall::GetScheduling
                &&& calls[n - 5] == StartCall::PriorityMax(1)
                &&& calls[n - 4] == StartCall::Elevate(
                    Scheduling { policy: 1, priority: replies(StartCall::PriorityMax(1)).code },
                )
                &&& calls[n - 3] == StartCall::Start(Endpoint::Capture)
                &&& calls[n - 2] == StartCall::Start(Endpoint::Playback)
                &&& calls[n - 1] == StartCall::Restore(
                    replies(StartCall::GetScheduling).scheduling,
                )
                &&& forall|i: int|
                    n - 8 <= i < n && i != n - 5 ==> replies(#[trigger] calls[i]).code == 0
                &&& replies(StartCall::PriorityMax(1)).code >= 1
                &&& end_stream.playback.started && end_stream.capture.started
                &&& end_stream.playback.open == stream.playback.open
                &&& end_stream.capture.open == stream.capture.open
            }
            &&& end.status != 0 ==> end.status == AUDIO_PORTAUDIO_ERROR
        }),
{
    law_start_outcome(stream, replies);
    law_start_success(stream, replies);
    crate::stream_stop::law_stop_attempts_both_endpoints(stream, stop_codes(replies));
    crate::stream_stop::law_stop_only_joins(stream, stop_codes(replies));
}

} // verus!
