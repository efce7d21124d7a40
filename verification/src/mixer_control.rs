//! Reading and writing one open mixer control.
//!
//! ALSA writes a complete stereo control from its cache, so a stale sibling value would
//! undo what another handle or program has set. Every operation therefore refreshes the
//! cache first, and fails without touching the control where that fails.
use vstd::prelude::*;

use crate::abi::{AUDIO_ALSA_ERROR, AUDIO_INVALID_ARGUMENT, AUDIO_UNSUPPORTED};
use crate::mixer_level::{normalized_from_steps, steps_from_normalized, MIXER_NORMALIZED_MAXIMUM};

verus! {

/// What a caller wants of a mixer control.
#[derive(Clone, Copy, Debug, PartialEq, Eq, Structural)]
pub enum MixerOperation {
    GetRange,
    GetCentibels,
    SetCentibels(i64),
    GetStepRange,
    GetSteps,
    SetSteps(i64),
    GetNormalized,
    SetNormalized(u32),
    GetSwitch,
    SetSwitch(bool),
}

/// A call on the control, for its own direction and channel.
#[derive(Clone, Copy, Debug, PartialEq, Eq, Structural)]
pub enum MixerCall {
    /// Bring the handle's cache up to date.
    Refresh,
    HasVolume,
    HasSwitch,
    GetCentibelRange,
    GetCentibels,
    SetCentibels(i64),
    /// This call has no code.
    GetStepRange,
    GetSteps,
    SetSteps(i64),
    GetSwitch,
    SetSwitch(bool),
}

/// The reply to a call: its code, negative for failure, and what it read. A single value
/// is the lower one; of [`MixerCall::HasVolume`] and [`MixerCall::HasSwitch`] the code is
/// the answer, zero for no.
#[derive(Clone, Copy, Debug, PartialEq, Eq, Structural)]
pub struct MixerReply {
    pub code: i32,
    pub low: i64,
    pub high: i64,
}

/// What an operation gives back.
#[derive(Clone, Copy, Debug, PartialEq, Eq, Structural)]
pub enum MixerValue {
    Done,
    Range(i64, i64),
    Level(i64),
    Normalized(u32),
    Switch(bool),
}

/// One operation on a mixer control.
#[derive(Clone, Copy, Debug, PartialEq, Eq)]
pub struct MixerControl {
    pub operation: MixerOperation,
    /// The call to make next; none once the operation is over.
    pub next_call: Option<MixerCall>,
    /// The result, once the operation is over.
    pub result: Result<MixerValue, i32>,
    /// The range has been read once, and the second half of a normalized operation runs.
    pub second: bool,
    pub minimum: i64,
    pub maximum: i64,
    /// The native value that a normalized level stands for.
    pub target: i64,
}

/// The operation works on the path switch, not on the volume.
pub open spec fn is_switch_operation(operation: MixerOperation) -> bool {
    operation is GetSwitch || operation is SetSwitch
}

/// The public level of native steps, or why there is none.
pub open spec fn level_of(value: i64, minimum: i64, maximum: i64) -> Result<u32, i32> {
    if minimum >= maximum {
        Err(AUDIO_UNSUPPORTED)
    } else if !(minimum <= value <= maximum) {
        Err(AUDIO_ALSA_ERROR)
    } else {
        Ok(
            crate::mixer_level::normalized_level(
                value as int,
                minimum as int,
                maximum as int,
            ) as u32,
        )
    }
}

/// The native steps of a public level, or why there are none.
pub open spec fn steps_of(level: u32, minimum: i64, maximum: i64) -> Result<i64, i32> {
    if level > MIXER_NORMALIZED_MAXIMUM {
        Err(AUDIO_INVALID_ARGUMENT)
    } else if minimum >= maximum {
        Err(AUDIO_UNSUPPORTED)
    } else {
        Ok(
            crate::mixer_level::native_steps(
                level as int,
                minimum as int,
                maximum as int,
            ) as i64,
        )
    }
}

impl MixerControl {
    /// The operation before its first call.
    pub open spec fn initial(operation: MixerOperation) -> MixerControl {
        MixerControl {
            operation,
            next_call: Some(MixerCall::Refresh),
            result: Err(AUDIO_ALSA_ERROR),
            second: false,
            minimum: 0,
            maximum: 0,
            target: 0,
        }
    }

    /// The operation goes on with `call`.
    pub open spec fn calling(self, call: MixerCall) -> MixerControl {
        MixerControl { next_call: Some(call), ..self }
    }

    /// The operation is over with `result`.
    pub open spec fn over(self, result: Result<MixerValue, i32>) -> MixerControl {
        MixerControl { next_call: None, result, ..self }
    }

    /// The call that the support of the control leads to.
    pub open spec fn access(self) -> MixerCall {
        match self.operation {
            MixerOperation::GetRange => MixerCall::GetCentibelRange,
            MixerOperation::GetCentibels => MixerCall::GetCentibels,
            MixerOperation::SetCentibels(value) => MixerCall::SetCentibels(value),
            MixerOperation::GetStepRange => MixerCall::GetStepRange,
            MixerOperation::GetSteps => MixerCall::GetSteps,
            MixerOperation::SetSteps(_) => MixerCall::GetStepRange,
            MixerOperation::GetNormalized => if self.second {
                MixerCall::GetSteps
            } else {
                MixerCall::GetStepRange
            },
            MixerOperation::SetNormalized(_) => MixerCall::GetStepRange,
            MixerOperation::GetSwitch => MixerCall::GetSwitch,
            MixerOperation::SetSwitch(enabled) => MixerCall::SetSwitch(enabled),
        }
    }

    /// The operation after the step range has been read.
    pub open spec fn ranged(self, minimum: i64, maximum: i64) -> MixerControl {
        if minimum > maximum {
            self.over(Err(AUDIO_ALSA_ERROR))
        } else {
            match self.operation {
                MixerOperation::GetStepRange => self.over(Ok(MixerValue::Range(minimum, maximum))),
                MixerOperation::SetSteps(value) => if minimum <= value <= maximum {
                    self.calling(MixerCall::SetSteps(value))
                } else {
                    self.over(Err(AUDIO_INVALID_ARGUMENT))
                },
                MixerOperation::GetNormalized => MixerControl {
                    second: true,
                    minimum,
                    maximum,
                    ..self
                }.calling(MixerCall::Refresh),
                MixerOperation::SetNormalized(level) => if !self.second {
                    match steps_of(level, minimum, maximum) {
                        Ok(target) => MixerControl { second: true, target, ..self }.calling(
                            MixerCall::Refresh,
                        ),
                        Err(error) => self.over(Err(error)),
                    }
                } else if minimum <= self.target <= maximum {
                    self.calling(MixerCall::SetSteps(self.target))
                } else {
                    self.over(Err(AUDIO_INVALID_ARGUMENT))
                },
                _ => self.over(Err(AUDIO_ALSA_ERROR)),
            }
        }
    }

    /// The operation after the next call was replied to.
    pub open spec fn after(self, reply: MixerReply) -> MixerControl {
        match self.next_call {
            Some(MixerCall::Refresh) => if reply.code < 0 {
                self.over(Err(AUDIO_ALSA_ERROR))
            } else if is_switch_operation(self.operation) {
                self.calling(MixerCall::HasSwitch)
            } else {
                self.calling(MixerCall::HasVolume)
            },
            Some(MixerCall::HasVolume) | Some(MixerCall::HasSwitch) => if reply.code == 0 {
                self.over(Err(AUDIO_UNSUPPORTED))
            } else {
                self.calling(self.access())
            },
            Some(MixerCall::GetStepRange) => self.ranged(reply.low, reply.high),
            Some(call) => if reply.code < 0 {
                self.over(Err(AUDIO_ALSA_ERROR))
            } else {
                match call {
                    MixerCall::GetCentibelRange => self.over(
                        Ok(MixerValue::Range(reply.low, reply.high)),
                    ),
                    MixerCall::GetCentibels => self.over(Ok(MixerValue::Level(reply.low))),
                    MixerCall::GetSteps => if self.operation is GetNormalized {
                        match level_of(reply.low, self.minimum, self.maximum) {
                            Ok(level) => self.over(Ok(MixerValue::Normalized(level))),
                            Err(error) => self.over(Err(error)),
                        }
                    } else {
                        self.over(Ok(MixerValue::Level(reply.low)))
                    },
                    MixerCall::GetSwitch => self.over(Ok(MixerValue::Switch(reply.low != 0))),
                    _ => self.over(Ok(MixerValue::Done)),
                }
            },
            None => self,
        }
    }

    /// Begins an operation.
    pub fn begin(operation: MixerOperation) -> (control: MixerControl)
        ensures
            control == MixerControl::initial(operation),
    {
        MixerControl {
            operation,
            next_call: Some(MixerCall::Refresh),
            result: Err(AUDIO_ALSA_ERROR),
            second: false,
            minimum: 0,
            maximum: 0,
            target: 0,
        }
    }

    /// The call to make next, or none when the operation is over.
    pub fn call(&self) -> (call: Option<MixerCall>)
        ensures
            call == self.next_call,
    {
        self.next_call
    }

    fn finish(&mut self, result: Result<MixerValue, i32>)
        ensures
            *final(self) == old(self).over(result),
    {
        self.next_call = None;
        self.result = result;
    }

    fn take_range(&mut self, minimum: i64, maximum: i64)
        ensures
            *final(self) == old(self).ranged(minimum, maximum),
    {
        if minimum > maximum {
            self.finish(Err(AUDIO_ALSA_ERROR));
            return ;
        }
        match self.operation {
            MixerOperation::GetStepRange => {
                self.finish(Ok(MixerValue::Range(minimum, maximum)));
            },
            MixerOperation::SetSteps(value) => {
                if value < minimum || value > maximum {
                    self.finish(Err(AUDIO_INVALID_ARGUMENT));
                } else {
                    self.next_call = Some(MixerCall::SetSteps(value));
                }
            },
            MixerOperation::GetNormalized => {
                self.second = true;
                self.minimum = minimum;
                self.maximum = maximum;
                self.next_call = Some(MixerCall::Refresh);
            },
            MixerOperation::SetNormalized(level) => {
                if !self.second {
                    match steps_from_normalized(level, minimum, maximum) {
                        Ok(target) => {
                            self.second = true;
                            self.target = target;
                            self.next_call = Some(MixerCall::Refresh);
                        },
                        Err(error) => {
                            self.finish(Err(error));
                        },
                    }
                } else if self.target < minimum || self.target > maximum {
                    self.finish(Err(AUDIO_INVALID_ARGUMENT));
                } else {
                    self.next_call = Some(MixerCall::SetSteps(self.target));
                }
            },
            _ => {
                self.finish(Err(AUDIO_ALSA_ERROR));
            },
        }
    }

    fn next_access(&self) -> (call: MixerCall)
        ensures
            call == self.access(),
    {
        match self.operation {
            MixerOperation::GetRange => MixerCall::GetCentibelRange,
            MixerOperation::GetCentibels => MixerCall::GetCentibels,
            MixerOperation::SetCentibels(value) => MixerCall::SetCentibels(value),
            MixerOperation::GetStepRange => MixerCall::GetStepRange,
            MixerOperation::GetSteps => MixerCall::GetSteps,
            MixerOperation::SetSteps(_) => MixerCall::GetStepRange,
            MixerOperation::GetNormalized => if self.second {
                MixerCall::GetSteps
            } else {
                MixerCall::GetStepRange
            },
            MixerOperation::SetNormalized(_) => MixerCall::GetStepRange,
            MixerOperation::GetSwitch => MixerCall::GetSwitch,
            MixerOperation::SetSwitch(enabled) => MixerCall::SetSwitch(enabled),
        }
    }

    /// Takes the reply to the call that was due.
    pub fn reply(&mut self, reply: MixerReply)
        ensures
            *final(self) == old(self).after(reply),
    {
        let call: MixerCall = match self.next_call {
            Some(call) => call,
            None => return ,
        };
        match call {
            MixerCall::Refresh => {
                if reply.code < 0 {
                    self.finish(Err(AUDIO_ALSA_ERROR));
                } else {
                    self.next_call = match self.operation {
                        MixerOperation::GetSwitch => Some(MixerCall::HasSwitch),
                        MixerOperation::SetSwitch(_) => Some(MixerCall::HasSwitch),
                        _ => Some(MixerCall::HasVolume),
                    };
                }
            },
            MixerCall::HasVolume | MixerCall::HasSwitch => {
                if reply.code == 0 {
                    self.finish(Err(AUDIO_UNSUPPORTED));
                } else {
                    self.next_call = Some(self.next_access());
                }
            },
            MixerCall::GetStepRange => {
                self.take_range(reply.low, reply.high);
            },
            _ => {
                if reply.code < 0 {
                    self.finish(Err(AUDIO_ALSA_ERROR));
                    return ;
                }
                let value: Result<MixerValue, i32> = match call {
                    MixerCall::GetCentibelRange => Ok(MixerValue::Range(reply.low, reply.high)),
                    MixerCall::GetCentibels => Ok(MixerValue::Level(reply.low)),
                    MixerCall::GetSteps => match self.operation {
                        MixerOperation::GetNormalized => match normalized_from_steps(
                            reply.low,
                            self.minimum,
                            self.maximum,
                        ) {
                            Ok(level) => Ok(MixerValue::Normalized(level)),
                            Err(error) => Err(error),
                        },
                        _ => Ok(MixerValue::Level(reply.low)),
                    },
                    MixerCall::GetSwitch => Ok(MixerValue::Switch(reply.low != 0)),
                    _ => Ok(MixerValue::Done),
                };
                self.finish(value);
            },
        }
    }
}

/// The operation that sets a path switch to `enabled`, which is zero or one.
pub fn mixer_set_switch(enabled: u32) -> (result: Result<MixerOperation, i32>)
    ensures
        enabled > 1 ==> result == Err::<MixerOperation, i32>(AUDIO_INVALID_ARGUMENT),
        enabled <= 1 ==> result == Ok::<MixerOperation, i32>(
            MixerOperation::SetSwitch(enabled != 0),
        ),
{
    if enabled > 1 {
        Err(AUDIO_INVALID_ARGUMENT)
    } else {
        Ok(MixerOperation::SetSwitch(enabled != 0))
    }
}

impl MixerControl {
    /// The operation does not read the range again where it needs it no more.
    pub open spec fn well_formed(self) -> bool {
        self.second && self.operation is GetNormalized ==> self.next_call != Some(
            MixerCall::GetStepRange,
        )
    }

    /// An upper bound on the calls that are still to be made.
    pub open spec fn calls_left(self) -> nat {
        let half: nat = if self.second {
            0
        } else {
            4
        };
        match self.next_call {
            Some(MixerCall::Refresh) => half + 4,
            Some(MixerCall::HasVolume) => half + 3,
            Some(MixerCall::HasSwitch) => half + 3,
            Some(MixerCall::GetStepRange) => half + 2,
            Some(_) => 1,
            None => 0,
        }
    }

    /// The operation and the calls made, once every call has been replied to: the first
    /// one as `replies` says for `index`, each later one for the number that follows.
    pub open spec fn run(self, replies: spec_fn(int) -> MixerReply, index: int) -> (
        MixerControl,
        Seq<MixerCall>,
    )
        decreases self.calls_left(),
    {
        match self.next_call {
            Some(call) => if self.well_formed() {
                let (end, calls) = self.after(replies(index)).run(replies, index + 1);
                (end, seq![call] + calls)
            } else {
                (self, Seq::empty())
            },
            None => (self, Seq::empty()),
        }
    }
}

/// Refreshing and asking for support, at `index` and after it, both worked out.
pub open spec fn usable(replies: spec_fn(int) -> MixerReply, index: int) -> Result<(), i32> {
    if replies(index).code < 0 {
        Err(AUDIO_ALSA_ERROR)
    } else if replies(index + 1).code == 0 {
        Err(AUDIO_UNSUPPORTED)
    } else {
        Ok(())
    }
}

/// The step range that was read at `index` is one.
pub open spec fn range_at(replies: spec_fn(int) -> MixerReply, index: int) -> bool {
    replies(index).low <= replies(index).high
}

/// `value` lies in the step range that was read at `index`.
pub open spec fn in_range_at(
    replies: spec_fn(int) -> MixerReply,
    index: int,
    value: i64,
) -> bool {
    replies(index).low <= value <= replies(index).high
}

/// The value that a single access at `index` gives, or ALSA's failure.
pub open spec fn accessed(
    replies: spec_fn(int) -> MixerReply,
    index: int,
    value: MixerValue,
) -> Result<MixerValue, i32> {
    if replies(index).code < 0 {
        Err(AUDIO_ALSA_ERROR)
    } else {
        Ok(value)
    }
}

/// What an operation comes to when its calls are replied to in turn.
pub open spec fn operation_result(
    operation: MixerOperation,
    replies: spec_fn(int) -> MixerReply,
) -> Result<MixerValue, i32> {
    let third = replies(2);
    if usable(replies, 0) is Err {
        Err(usable(replies, 0)->Err_0)
    } else {
        match operation {
            MixerOperation::GetRange => accessed(
                replies,
                2,
                MixerValue::Range(third.low, third.high),
            ),
            MixerOperation::GetCentibels => accessed(replies, 2, MixerValue::Level(third.low)),
            MixerOperation::SetCentibels(_) => accessed(replies, 2, MixerValue::Done),
            MixerOperation::GetStepRange => if range_at(replies, 2) {
                Ok(MixerValue::Range(third.low, third.high))
            } else {
                Err(AUDIO_ALSA_ERROR)
            },
            MixerOperation::GetSteps => accessed(replies, 2, MixerValue::Level(third.low)),
            MixerOperation::SetSteps(value) => if !range_at(replies, 2) {
                Err(AUDIO_ALSA_ERROR)
            } else if !in_range_at(replies, 2, value) {
                Err(AUDIO_INVALID_ARGUMENT)
            } else {
                accessed(replies, 3, MixerValue::Done)
            },
            MixerOperation::GetNormalized => if !range_at(replies, 2) {
                Err(AUDIO_ALSA_ERROR)
            } else if usable(replies, 3) is Err {
                Err(usable(replies, 3)->Err_0)
            } else if replies(5).code < 0 {
                Err(AUDIO_ALSA_ERROR)
            } else {
                match level_of(replies(5).low, third.low, third.high) {
                    Ok(level) => Ok(MixerValue::Normalized(level)),
                    Err(error) => Err(error),
                }
            },
            MixerOperation::SetNormalized(level) => if !range_at(replies, 2) {
                Err(AUDIO_ALSA_ERROR)
            } else {
                match steps_of(level, third.low, third.high) {
                    Err(error) => Err(error),
                    Ok(target) => if usable(replies, 3) is Err {
                        Err(usable(replies, 3)->Err_0)
                    } else if !range_at(replies, 5) {
                        Err(AUDIO_ALSA_ERROR)
                    } else if !in_range_at(replies, 5, target) {
                        Err(AUDIO_INVALID_ARGUMENT)
                    } else {
                        accessed(replies, 6, MixerValue::Done)
                    },
                }
            },
            MixerOperation::GetSwitch => accessed(replies, 2, MixerValue::Switch(third.low != 0)),
            MixerOperation::SetSwitch(_) => accessed(replies, 2, MixerValue::Done),
        }
    }
}

/// The calls that an operation makes as long as nothing fails.
pub open spec fn operation_plan(
    operation: MixerOperation,
    replies: spec_fn(int) -> MixerReply,
) -> Seq<MixerCall> {
    let refresh = MixerCall::Refresh;
    let volume = MixerCall::HasVolume;
    let range = MixerCall::GetStepRange;
    match operation {
        MixerOperation::GetRange => seq![refresh, volume, MixerCall::GetCentibelRange],
        MixerOperation::GetCentibels => seq![refresh, volume, MixerCall::GetCentibels],
        MixerOperation::SetCentibels(value) => seq![
            refresh,
            volume,
            MixerCall::SetCentibels(value),
        ],
        MixerOperation::GetStepRange => seq![refresh, volume, range],
        MixerOperation::GetSteps => seq![refresh, volume, MixerCall::GetSteps],
        MixerOperation::SetSteps(value) => seq![
            refresh,
            volume,
            range,
            MixerCall::SetSteps(value),
        ],
        MixerOperation::GetNormalized => seq![
            refresh,
            volume,
            range,
            refresh,
            volume,
            MixerCall::GetSteps,
        ],
        MixerOperation::SetNormalized(level) => seq![
            refresh,
            volume,
            range,
            refresh,
            volume,
            range,
            MixerCall::SetSteps(steps_of(level, replies(2).low, replies(2).high)->Ok_0),
        ],
        MixerOperation::GetSwitch => seq![refresh, MixerCall::HasSwitch, MixerCall::GetSwitch],
        MixerOperation::SetSwitch(enabled) => seq![
            refresh,
            MixerCall::HasSwitch,
            MixerCall::SetSwitch(enabled),
        ],
    }
}

/// What an operation comes to, whatever its calls reply: the result of
/// `operation_result`, through the calls of `operation_plan` up to the first that fails,
/// and through all of them where it succeeds.
pub proof fn law_operation_outcome(
    operation: MixerOperation,
    replies: spec_fn(int) -> MixerReply,
)
    ensures
        ({
            let (end, calls) = MixerControl::initial(operation).run(replies, 0);
            let plan = operation_plan(operation, replies);
            &&& end.next_call is None
            &&& end.result == operation_result(operation, replies)
            &&& 0 < calls.len() <= plan.len()
            &&& calls == plan.take(calls.len() as int)
            &&& end.result is Ok ==> calls == plan
        }),
{
    let first = MixerControl::initial(operation);
    let second = first.after(replies(0));
    let third = second.after(replies(1));
    let fourth = third.after(replies(2));
    let fifth = fourth.after(replies(3));
    let sixth = fifth.after(replies(4));
    let seventh = sixth.after(replies(5));
    let eighth = seventh.after(replies(6));
    let plan = operation_plan(operation, replies);
    let calls = first.run(replies, 0).1;
    lemma_run_step(seventh, replies, 6);
    lemma_run_step(sixth, replies, 5);
    lemma_run_step(fifth, replies, 4);
    lemma_run_step(fourth, replies, 3);
    lemma_run_step(third, replies, 2);
    lemma_run_step(second, replies, 1);
    lemma_run_step(first, replies, 0);
    assert(calls =~= plan.take(calls.len() as int));
    assert(plan.take(plan.len() as int) =~= plan);
}

proof fn lemma_run_step(control: MixerControl, replies: spec_fn(int) -> MixerReply, index: int)
    ensures
        match control.next_call {
            Some(call) => control.well_formed() ==> {
                let (end, calls) = control.after(replies(index)).run(replies, index + 1);
                &&& control.run(replies, index).0 == end
                &&& control.run(replies, index).1 == seq![call] + calls
            },
            None => control.run(replies, index) == (control, Seq::<MixerCall>::empty())
                && control.after(replies(index)) == control,
        },
{
}

/// A call that reads or writes the control itself.
pub open spec fn is_access(call: MixerCall) -> bool {
    !(call is Refresh) && !(call is HasVolume) && !(call is HasSwitch)
}

/// No operation touches a control with a stale cache: every read and every write comes
/// after a refresh that worked, with the answer that the control is supported between
/// them, and a failed refresh is the last call of its operation.
pub proof fn law_refresh_precedes_access(
    operation: MixerOperation,
    replies: spec_fn(int) -> MixerReply,
)
    ensures
        ({
            let (end, calls) = MixerControl::initial(operation).run(replies, 0);
            &&& forall|i: int|
                0 <= i < calls.len() && is_access(#[trigger] calls[i]) ==> exists|j: int|
                    0 <= j && j + 1 < i <= j + 3 && #[trigger] calls[j] is Refresh && replies(
                        j,
                    ).code >= 0 && replies(j + 1).code != 0
            &&& forall|i: int|
                0 <= i < calls.len() && (#[trigger] calls[i]) is Refresh && replies(i).code < 0
                    ==> i == calls.len() - 1 && end.result == Err::<MixerValue, i32>(
                    AUDIO_ALSA_ERROR,
                )
        }),
{
    law_operation_outcome(operation, replies);
    let (end, calls) = MixerControl::initial(operation).run(replies, 0);
    let plan = operation_plan(operation, replies);
    lemma_failures_stop(operation, replies);
    assert forall|i: int| 0 <= i < calls.len() implies #[trigger] calls[i] == plan[i] by {}
    assert forall|i: int|
        0 <= i < calls.len() && is_access(#[trigger] calls[i]) implies exists|j: int|
        0 <= j && j + 1 < i <= j + 3 && #[trigger] calls[j] is Refresh && replies(j).code >= 0
            && replies(j + 1).code != 0 by {
        if i >= 5 {
            assert(calls[3] is Refresh);
        } else {
            assert(calls[0] is Refresh);
        }
    }
    assert forall|i: int|
        0 <= i < calls.len() && (#[trigger] calls[i]) is Refresh && replies(i).code
            < 0 implies i == calls.len() - 1 && end.result == Err::<MixerValue, i32>(
        AUDIO_ALSA_ERROR,
    ) by {
        assert(plan[i] is Refresh);
        assert(i == 0 || i == 3);
        if i == 3 {
            assert(usable(replies, 3) == Err::<(), i32>(AUDIO_ALSA_ERROR));
            assert(operation is GetNormalized || operation is SetNormalized);
            assert(calls.len() > 3);
        }
    }
}

/// A failed refresh or missing support is the last call.
proof fn lemma_failures_stop(operation: MixerOperation, replies: spec_fn(int) -> MixerReply)
    ensures
        ({
            let calls = MixerControl::initial(operation).run(replies, 0).1;
            &&& replies(0).code < 0 ==> calls.len() == 1
            &&& replies(1).code == 0 ==> calls.len() <= 2
            &&& calls.len() > 3 ==> usable(replies, 0) is Ok && (operation is GetNormalized
                || operation is SetNormalized ==> range_at(replies, 2) && (operation matches
                MixerOperation::SetNormalized(level) ==> steps_of(
                level,
                replies(2).low,
                replies(2).high,
            ) is Ok))
            &&& (operation is GetNormalized || operation is SetNormalized) && replies(3).code < 0
                ==> calls.len() <= 4
            &&& calls.len() > 5 ==> replies(4).code != 0
        }),
{
    let first = MixerControl::initial(operation);
    let second = first.after(replies(0));
    let third = second.after(replies(1));
    let fourth = third.after(replies(2));
    let fifth = fourth.after(replies(3));
    let sixth = fifth.after(replies(4));
    lemma_run_step(sixth, replies, 5);
    lemma_run_step(fifth, replies, 4);
    lemma_run_step(fourth, replies, 3);
    lemma_run_step(third, replies, 2);
    lemma_run_step(second, replies, 1);
    lemma_run_step(first, replies, 0);
}

/// A call that changes the control.
pub open spec fn is_write(call: MixerCall) -> bool {
    call is SetCentibels || call is SetSteps || call is SetSwitch
}

/// An operation writes only what it was asked to write, at most once and as its last call:
/// a reading operation nothing, a setting one its own value. A native value is written only
/// where it lies in the range that was read last, and a level as the nearest native value
/// of the range that was read first. A setting operation succeeds exactly where it wrote and
/// the write did not fail.
pub proof fn law_operation_writes_what_was_asked(
    operation: MixerOperation,
    replies: spec_fn(int) -> MixerReply,
)
    ensures
        ({
            let (end, calls) = MixerControl::initial(operation).run(replies, 0);
            let last = calls.len() - 1;
            let writes = operation is SetCentibels || operation is SetSteps || operation is SetSwitch
                || operation is SetNormalized;
            &&& forall|i: int|
                0 <= i < calls.len() && is_write(#[trigger] calls[i]) ==> i == last && match operation {
                    MixerOperation::SetCentibels(value) => calls[i] == MixerCall::SetCentibels(
                        value,
                    ),
                    MixerOperation::SetSwitch(enabled) => calls[i] == MixerCall::SetSwitch(enabled),
                    MixerOperation::SetSteps(value) => {
                        &&& calls[i] == MixerCall::SetSteps(value)
                        &&& calls[i - 1] == MixerCall::GetStepRange
                        &&& replies(i - 1).low <= value <= replies(i - 1).high
                    },
                    MixerOperation::SetNormalized(level) => calls[i] matches MixerCall::SetSteps(
                        value,
                    ) && {
                        let low = replies(2).low as int;
                        let high = replies(2).high as int;
                        &&& level <= 999
                        &&& low < high
                        &&& calls[2] == MixerCall::GetStepRange
                        &&& 2 * (999 * (value - low) - level * (high - low)) <= 999
                        &&& 2 * (level * (high - low) - 999 * (value - low)) < 999
                        &&& calls[i - 1] == MixerCall::GetStepRange
                        &&& replies(i - 1).low <= value <= replies(i - 1).high
                    },
                    _ => false,
                }
            &&& writes ==> (end.result == Ok::<MixerValue, i32>(MixerValue::Done) <==> is_write(
                calls[last],
            ) && replies(last).code >= 0)
            &&& writes ==> end.result is Err || end.result == Ok::<MixerValue, i32>(
                MixerValue::Done,
            )
        }),
{
    law_operation_outcome(operation, replies);
    lemma_last_call(operation, replies);
    let (end, calls) = MixerControl::initial(operation).run(replies, 0);
    let plan = operation_plan(operation, replies);
    assert forall|i: int| 0 <= i < calls.len() implies #[trigger] calls[i] == plan[i] by {}
    if let MixerOperation::SetNormalized(level) = operation {
        if level <= 999 && replies(2).low < replies(2).high {
            crate::mixer_level::law_conversions_are_proportional(
                replies(2).low as int,
                level as int,
                replies(2).low as int,
                replies(2).high as int,
            );
            crate::mixer_level::law_conversions_stay_in_range(
                replies(2).low as int,
                level as int,
                replies(2).low as int,
                replies(2).high as int,
            );
        }
    }
}

/// What had to hold for the last call of a plan to be made.
proof fn lemma_last_call(operation: MixerOperation, replies: spec_fn(int) -> MixerReply)
    ensures
        ({
            let (end, calls) = MixerControl::initial(operation).run(replies, 0);
            &&& calls.len() == operation_plan(operation, replies).len() && operation is SetSteps
                ==> in_range_at(replies, 2, operation->SetSteps_0)
            &&& calls.len() == 7 ==> (operation matches MixerOperation::SetNormalized(level)
                && steps_of(level, replies(2).low, replies(2).high) is Ok && in_range_at(
                replies,
                5,
                steps_of(level, replies(2).low, replies(2).high)->Ok_0,
            ))
            &&& calls.len() == operation_plan(operation, replies).len() && (
            operation is SetCentibels || operation is SetSwitch || operation is SetSteps
                || operation is SetNormalized) && replies(calls.len() - 1).code >= 0
                ==> end.result == Ok::<MixerValue, i32>(MixerValue::Done)
            &&& (operation is SetCentibels || operation is SetSwitch || operation is SetSteps
                || operation is SetNormalized) && end.result is Ok ==> replies(
                calls.len() - 1,
            ).code >= 0
        }),
{
    let first = MixerControl::initial(operation);
    let second = first.after(replies(0));
    let third = second.after(replies(1));
    let fourth = third.after(replies(2));
    let fifth = fourth.after(replies(3));
    let sixth = fifth.after(replies(4));
    let seventh = sixth.after(replies(5));
    let eighth = seventh.after(replies(6));
    lemma_run_step(eighth, replies, 7);
    lemma_run_step(seventh, replies, 6);
    lemma_run_step(sixth, replies, 5);
    lemma_run_step(fifth, replies, 4);
    lemma_run_step(fourth, replies, 3);
    lemma_run_step(third, replies, 2);
    lemma_run_step(second, replies, 1);
    lemma_run_step(first, replies, 0);
}

/// A reading operation gives back what the call for it read: a volume after the control said
/// that it has one, a switch after it said that it has that. A level is the nearest one to
/// the value's place in the range that was read before it.
pub proof fn law_operation_reads_what_was_read(
    operation: MixerOperation,
    replies: spec_fn(int) -> MixerReply,
)
    ensures
        ({
            let (end, calls) = MixerControl::initial(operation).run(replies, 0);
            end.result matches Ok(value) ==> {
                let third = replies(2);
                &&& calls.len() >= 3
                &&& calls[0] == MixerCall::Refresh
                &&& calls[1] == if operation is GetSwitch || operation is SetSwitch {
                    MixerCall::HasSwitch
                } else {
                    MixerCall::HasVolume
                }
                &&& replies(0).code >= 0 && replies(1).code != 0
                &&& match operation {
                    MixerOperation::GetRange => calls[2] == MixerCall::GetCentibelRange
                        && third.code >= 0 && value == MixerValue::Range(third.low, third.high),
                    MixerOperation::GetCentibels => calls[2] == MixerCall::GetCentibels
                        && third.code >= 0 && value == MixerValue::Level(third.low),
                    MixerOperation::GetStepRange => calls[2] == MixerCall::GetStepRange
                        && third.low <= third.high && value == MixerValue::Range(
                        third.low,
                        third.high,
                    ),
                    MixerOperation::GetSteps => calls[2] == MixerCall::GetSteps && third.code >= 0
                        && value == MixerValue::Level(third.low),
                    MixerOperation::GetSwitch => calls[2] == MixerCall::GetSwitch && third.code >= 0
                        && value == MixerValue::Switch(third.low != 0),
                    MixerOperation::GetNormalized => calls.len() == 6 && calls[2]
                        == MixerCall::GetStepRange && calls[5] == MixerCall::GetSteps && replies(
                        5,
                    ).code >= 0 && (value matches MixerValue::Normalized(level) && {
                        let span = third.high - third.low;
                        let place = replies(5).low - third.low;
                        &&& 0 <= place <= span
                        &&& level <= 999
                        &&& 2 * (level * span - 999 * place) <= span
                        &&& 2 * (999 * place - level * span) < span
                    }),
                    _ => value == MixerValue::Done,
                }
            }
        }),
{
    law_operation_outcome(operation, replies);
    let (end, calls) = MixerControl::initial(operation).run(replies, 0);
    let plan = operation_plan(operation, replies);
    if end.result is Ok {
        assert(calls == plan);
        let third = replies(2);
        let value = replies(5).low;
        if operation is GetNormalized {
            crate::mixer_level::law_conversions_are_proportional(
                value as int,
                0,
                third.low as int,
                third.high as int,
            );
            crate::mixer_level::law_conversions_stay_in_range(
                value as int,
                0,
                third.low as int,
                third.high as int,
            );
        }
    }
}

/// Nothing fails without a reason: where every call works, the control is there and each
/// range is one that holds the value, every operation succeeds.
pub proof fn law_operation_succeeds(operation: MixerOperation, replies: spec_fn(int) -> MixerReply)
    requires
        forall|i: int| 0 <= i < 7 ==> (#[trigger] replies(i)).code > 0,
        operation is GetStepRange ==> replies(2).low <= replies(2).high,
        operation matches MixerOperation::SetSteps(value) ==> replies(2).low <= value
            <= replies(2).high,
        operation is GetNormalized ==> replies(2).low < replies(2).high && replies(2).low
            <= replies(5).low <= replies(2).high,
        operation matches MixerOperation::SetNormalized(level) ==> level <= 999 && replies(2).low
            < replies(2).high && replies(5).low == replies(2).low && replies(5).high == replies(
            2,
        ).high,
    ensures
        MixerControl::initial(operation).run(replies, 0).0.result is Ok,
{
    law_operation_outcome(operation, replies);
    assert(replies(0).code > 0 && replies(1).code > 0 && replies(2).code > 0);
    assert(replies(3).code > 0 && replies(4).code > 0 && replies(5).code > 0);
    assert(replies(6).code > 0);
    if let MixerOperation::SetNormalized(level) = operation {
        crate::mixer_level::law_conversions_stay_in_range(
            replies(2).low as int,
            level as int,
            replies(2).low as int,
            replies(2).high as int,
        );
    }
}

} // verus!
