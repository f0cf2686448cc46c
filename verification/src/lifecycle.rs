//! The life of a worker that reads for a response or a body: at which point it
//! is cancelled, and what has to have happened by then.

use vstd::prelude::*;
use vstd::string::StringExecFns;

use crate::body_prepare::{phase_named, CancelPhase};
use crate::body_stream::AdapterFailure;
use crate::bridge::{store_handler_error, BridgeClosed, WorkerPayload};
use crate::retry::optional_view;
use crate::text::{decimal, render_decimal, same_text};

verus! {

/// How far a worker has come.
#[derive(Clone, Copy, Debug, PartialEq, Eq, Structural)]
pub enum WorkerPhase {
    Starting,
    AwaitingReply,
    ReplyObserved,
    Dropped,
}

impl WorkerPhase {
    /// The number that stands for the phase.
    pub open spec fn raw(self) -> u8 {
        match self {
            WorkerPhase::Starting => 0,
            WorkerPhase::AwaitingReply => 1,
            WorkerPhase::ReplyObserved => 2,
            WorkerPhase::Dropped => 3,
        }
    }

    /// The number that stands for the phase.
    pub fn as_raw(&self) -> (value: u8)
        ensures
            value == self.raw(),
    {
        match self {
            WorkerPhase::Starting => 0,
            WorkerPhase::AwaitingReply => 1,
            WorkerPhase::ReplyObserved => 2,
            WorkerPhase::Dropped => 3,
        }
    }
}

/// How long is waited for a phase, in milliseconds.
pub const PHASE_WAIT_MILLIS: u64 = 500;

/// What is done while a phase is waited for.
#[derive(Clone, Copy, Debug, PartialEq, Eq, Structural)]
pub enum PhaseWait {
    Reached,
    TimedOut,
    /// It is looked at again after a moment.
    Sleep,
}

/// What is done while a phase is waited for. A phase that is there is taken,
/// however late it is.
pub fn wait_for_worker_phase(observed: u8, expected: WorkerPhase, past_deadline: bool) -> (wait:
    PhaseWait)
    ensures
        wait == (if observed == expected.raw() {
            PhaseWait::Reached
        } else if past_deadline {
            PhaseWait::TimedOut
        } else {
            PhaseWait::Sleep
        }),
{
    if observed == expected.as_raw() {
        PhaseWait::Reached
    } else if past_deadline {
        PhaseWait::TimedOut
    } else {
        PhaseWait::Sleep
    }
}

/// Whose worker it is.
#[derive(Clone, Copy, Debug, PartialEq, Eq, Structural)]
pub enum WorkerKind {
    Body,
    Response,
}

impl WorkerKind {
    /// The message that a phase was not reached.
    pub open spec fn late_words(self, label: Seq<char>) -> Seq<char> {
        (match self {
            WorkerKind::Body => "body worker did not reach "@,
            WorkerKind::Response => "response worker did not reach "@,
        }) + label
    }

    /// The message that a phase was not reached.
    pub fn late_message(&self, label: &str) -> (text: String)
        ensures
            text@ == self.late_words(label@),
    {
        let mut text = match self {
            WorkerKind::Body => String::from_str("body worker did not reach "),
            WorkerKind::Response => String::from_str("response worker did not reach "),
        };
        text.append(label);
        text
    }

    /// The message that the worker outlived its owner.
    pub open spec fn alive_words(self) -> Seq<char> {
        match self {
            WorkerKind::Body => "body worker was not dropped before its origin owner"@,
            WorkerKind::Response => "response worker was not dropped before its origin owner"@,
        }
    }

    /// The message that the worker outlived its owner, where it did.
    pub fn require_worker_dropped(&self, observed: u8) -> (fault: Option<String>)
        ensures
            match fault {
                Some(text) => observed != WorkerPhase::Dropped.raw() && text@
                    == self.alive_words(),
                None => observed == WorkerPhase::Dropped.raw(),
            },
    {
        if observed == WorkerPhase::Dropped.as_raw() {
            return None;
        }
        Some(
            match self {
                WorkerKind::Body => String::from_str(
                    "body worker was not dropped before its origin owner",
                ),
                WorkerKind::Response => String::from_str(
                    "response worker was not dropped before its origin owner",
                ),
            },
        )
    }
}

/// The phase of a name.
pub fn lifecycle_phase(name: &str) -> (phase: Option<CancelPhase>)
    ensures
        phase == phase_named(name@),
{
    if same_text(name, "before-poll") {
        Some(CancelPhase::BeforePoll)
    } else if same_text(name, "queued-before-dequeue") {
        Some(CancelPhase::QueuedBeforeDequeue)
    } else if same_text(name, "reply-observed") {
        Some(CancelPhase::ReplyObserved)
    } else {
        None
    }
}

/// What the worker of a response asks of the Python thread.
#[derive(Clone, Copy, Debug, PartialEq, Eq, Structural)]
pub enum ResponseAction {
    Read { size: usize },
}

/// What the Python thread answers.
#[derive(Debug)]
pub enum ResponseReply {
    Chunk(Vec<u8>),
    End,
    /// The handler met an error, which it keeps.
    Failed,
}

impl WorkerPayload for ResponseAction {

}

impl WorkerPayload for ResponseReply {

}

/// Why the worker of a response failed.
#[derive(Clone, Copy, Debug, PartialEq, Eq, Structural)]
pub enum ResponseWorkerFailure {
    Absent,
    ActionReceiver,
    ReplySender,
    Handler,
}

impl ResponseWorkerFailure {
    /// The number that stands for the failure.
    pub open spec fn raw(self) -> u8 {
        match self {
            ResponseWorkerFailure::Absent => 0,
            ResponseWorkerFailure::ActionReceiver => 1,
            ResponseWorkerFailure::ReplySender => 2,
            ResponseWorkerFailure::Handler => 3,
        }
    }

    /// The number that stands for the failure.
    pub fn as_raw(&self) -> (value: u8)
        ensures
            value == self.raw(),
    {
        match self {
            ResponseWorkerFailure::Absent => 0,
            ResponseWorkerFailure::ActionReceiver => 1,
            ResponseWorkerFailure::ReplySender => 2,
            ResponseWorkerFailure::Handler => 3,
        }
    }

    /// The failure that a number stands for; any other number stands for none.
    pub fn from_raw(value: u8) -> (failure: Self)
        ensures
            value <= 3 ==> failure.raw() == value,
            value > 3 ==> failure == ResponseWorkerFailure::Absent,
    {
        if value == 1 {
            ResponseWorkerFailure::ActionReceiver
        } else if value == 2 {
            ResponseWorkerFailure::ReplySender
        } else if value == 3 {
            ResponseWorkerFailure::Handler
        } else {
            ResponseWorkerFailure::Absent
        }
    }

    /// What the failure is called.
    pub open spec fn label(self) -> Seq<char> {
        match self {
            ResponseWorkerFailure::Absent => "None"@,
            ResponseWorkerFailure::ActionReceiver => "ActionReceiver"@,
            ResponseWorkerFailure::ReplySender => "ReplySender"@,
            ResponseWorkerFailure::Handler => "Handler"@,
        }
    }

    /// What the failure is called.
    pub fn name(&self) -> (name: &'static str)
        ensures
            name@ == self.label(),
    {
        match self {
            ResponseWorkerFailure::Absent => "None",
            ResponseWorkerFailure::ActionReceiver => "ActionReceiver",
            ResponseWorkerFailure::ReplySender => "ReplySender",
            ResponseWorkerFailure::Handler => "Handler",
        }
    }
}

/// A failure is read back from its number.
pub proof fn law_failures_are_told_by_number(
    first: ResponseWorkerFailure,
    second: ResponseWorkerFailure,
)
    ensures
        first.raw() == second.raw() ==> first == second,
        first.raw() <= 3,
{
}

/// The failure that a closed bridge is.
pub fn response_worker_failure(closed: BridgeClosed) -> (failure: ResponseWorkerFailure)
    ensures
        failure == (match closed {
            BridgeClosed::ActionReceiver => ResponseWorkerFailure::ActionReceiver,
            BridgeClosed::ReplySender => ResponseWorkerFailure::ReplySender,
        }),
{
    match closed {
        BridgeClosed::ActionReceiver => ResponseWorkerFailure::ActionReceiver,
        BridgeClosed::ReplySender => ResponseWorkerFailure::ReplySender,
    }
}

/// What the Python thread holds for the worker of a response.
pub struct OriginResponseOwner {
    pub subject: usize,
}

/// How a response is read for its worker.
#[derive(Clone, Copy, Debug, PartialEq, Eq, Structural)]
pub enum ReadCall {
    /// The next piece of a new iterator over the raw stream, decoded.
    NextOfStream { size: usize },
    /// A read of the raw stream.
    ReadRaw { size: usize },
}

/// How a response is read for its worker.
pub fn response_read_action(action: ResponseAction, has_stream: bool) -> (call: ReadCall)
    ensures
        match action {
            ResponseAction::Read { size } => call == (if has_stream {
                ReadCall::NextOfStream { size }
            } else {
                ReadCall::ReadRaw { size }
            }),
        },
{
    let ResponseAction::Read { size } = action;
    if has_stream {
        ReadCall::NextOfStream { size }
    } else {
        ReadCall::ReadRaw { size }
    }
}

/// What reading gave.
pub enum ReadOutcome {
    /// The iterator is at its end.
    Exhausted,
    /// Python does not take the piece for true.
    Empty,
    Bytes(Vec<u8>),
    Raised(usize),
}

/// One more, unless there is no greater number.
pub open spec fn saturated(count: u8) -> u8 {
    if count == u8::MAX {
        count
    } else {
        (count + 1) as u8
    }
}

/// Counts one more, unless there is no greater number.
pub fn count_up(count: u8) -> (next: u8)
    ensures
        next == saturated(count),
{
    if count == u8::MAX {
        count
    } else {
        count + 1
    }
}

/// Answers the worker with what reading gave; the first error is kept.
pub fn response_action(outcome: ReadOutcome, handler_error: &mut Option<usize>) -> (reply: ResponseReply)
    ensures
        match outcome {
            ReadOutcome::Exhausted => reply is End && *final(handler_error) == *old(handler_error),
            ReadOutcome::Empty => reply is End && *final(handler_error) == *old(handler_error),
            ReadOutcome::Bytes(bytes) => reply == ResponseReply::Chunk(bytes) && *final(handler_error) == *old(handler_error),
            ReadOutcome::Raised(error) => reply is Failed && *final(handler_error) == (match *old(handler_error) {
                Some(first) => Some(first),
                None => Some(error),
            }),
        },
{
    match outcome {
        ReadOutcome::Exhausted => ResponseReply::End,
        ReadOutcome::Empty => ResponseReply::End,
        ReadOutcome::Bytes(bytes) => ResponseReply::Chunk(bytes),
        ReadOutcome::Raised(error) => {
            store_handler_error(handler_error, error);
            ResponseReply::Failed
        },
    }
}

/// The worker of a response that is to be cancelled at a phase.
#[derive(Clone, Copy, Debug, PartialEq, Eq, Structural)]
pub struct LifecycleWorker {
    pub cancelled_at: CancelPhase,
    pub phase: WorkerPhase,
    pub queued: u8,
    pub replies: u8,
    pub failure: ResponseWorkerFailure,
}

/// What the worker does next.
#[derive(Clone, Copy, Debug, PartialEq, Eq, Structural)]
pub enum WorkerStep {
    /// It waits until it is cancelled.
    Pend,
    Enqueue(ResponseAction),
    AwaitReply,
    Finish,
}

impl LifecycleWorker {
    /// A worker at the start.
    pub open spec fn start(cancelled_at: CancelPhase) -> LifecycleWorker {
        LifecycleWorker {
            cancelled_at,
            phase: WorkerPhase::Starting,
            queued: 0,
            replies: 0,
            failure: ResponseWorkerFailure::Absent,
        }
    }

    /// A worker at the start.
    pub fn new(cancelled_at: CancelPhase) -> (worker: Self)
        ensures
            worker == Self::start(cancelled_at),
    {
        LifecycleWorker {
            cancelled_at,
            phase: WorkerPhase::Starting,
            queued: 0,
            replies: 0,
            failure: ResponseWorkerFailure::Absent,
        }
    }

    /// What the worker does first.
    pub fn begin(&self) -> (step: WorkerStep)
        ensures
            step == (if self.cancelled_at is BeforePoll {
                WorkerStep::Pend
            } else {
                WorkerStep::Enqueue(ResponseAction::Read { size: 1 })
            }),
    {
        match self.cancelled_at {
            CancelPhase::BeforePoll => WorkerStep::Pend,
            _ => WorkerStep::Enqueue(ResponseAction::Read { size: 1 }),
        }
    }

    /// Goes on once the action is queued, or could not be.
    pub fn enqueued(&mut self, result: Result<(), BridgeClosed>) -> (step: WorkerStep)
        ensures
            match result {
                Ok(_) => {
                    &&& *final(self) == (LifecycleWorker {
                        phase: WorkerPhase::AwaitingReply,
                        queued: saturated(old(self).queued),
                        ..*old(self)
                    })
                    &&& step == (if old(self).cancelled_at is QueuedBeforeDequeue {
                        WorkerStep::Pend
                    } else {
                        WorkerStep::AwaitReply
                    })
                },
                Err(closed) => {
                    &&& step is Finish
                    &&& *final(self) == (LifecycleWorker {
                        failure: match closed {
                            BridgeClosed::ActionReceiver => ResponseWorkerFailure::ActionReceiver,
                            BridgeClosed::ReplySender => ResponseWorkerFailure::ReplySender,
                        },
                        ..*old(self)
                    })
                },
            },
    {
        match result {
            Ok(_) => {
                self.queued = count_up(self.queued);
                self.phase = WorkerPhase::AwaitingReply;
                match self.cancelled_at {
                    CancelPhase::QueuedBeforeDequeue => WorkerStep::Pend,
                    _ => WorkerStep::AwaitReply,
                }
            },
            Err(closed) => {
                self.failure = response_worker_failure(closed);
                WorkerStep::Finish
            },
        }
    }

    /// Goes on once the reply is there, or cannot come. The worker then waits
    /// until it is cancelled.
    pub fn replied(&mut self, handler_failed: Option<bool>) -> (step: WorkerStep)
        ensures
            match handler_failed {
                None => step is Finish && *final(self) == (LifecycleWorker {
                    failure: ResponseWorkerFailure::ReplySender,
                    ..*old(self)
                }),
                Some(failed) => step is Pend && *final(self) == (LifecycleWorker {
                    failure: if failed {
                        ResponseWorkerFailure::Handler
                    } else {
                        old(self).failure
                    },
                    replies: saturated(old(self).replies),
                    phase: WorkerPhase::ReplyObserved,
                    ..*old(self)
                }),
            },
    {
        match handler_failed {
            None => {
                self.failure = ResponseWorkerFailure::ReplySender;
                WorkerStep::Finish
            },
            Some(failed) => {
                if failed {
                    self.failure = ResponseWorkerFailure::Handler;
                }
                self.replies = count_up(self.replies);
                self.phase = WorkerPhase::ReplyObserved;
                WorkerStep::Pend
            },
        }
    }
}

/// What the signal check does.
#[derive(Clone, Copy, Debug, PartialEq, Eq, Structural)]
pub enum SignalStep {
    /// The given error is raised.
    Raise,
    /// The given error is raised once the worker has reached a phase.
    RaiseAt(WorkerPhase),
    Quiet,
}

/// What the signal check does: before the first poll it raises at once; later
/// it waits until the worker has come far enough, and after a reply only once
/// an action was executed.
pub fn signal_step(cancelled_at: CancelPhase, executed: u8) -> (step: SignalStep)
    ensures
        step == (match cancelled_at {
            CancelPhase::BeforePoll => SignalStep::Raise,
            CancelPhase::QueuedBeforeDequeue => SignalStep::RaiseAt(WorkerPhase::AwaitingReply),
            CancelPhase::ReplyObserved => if executed == 0 {
                SignalStep::Quiet
            } else {
                SignalStep::RaiseAt(WorkerPhase::ReplyObserved)
            },
        }),
{
    match cancelled_at {
        CancelPhase::BeforePoll => SignalStep::Raise,
        CancelPhase::QueuedBeforeDequeue => SignalStep::RaiseAt(WorkerPhase::AwaitingReply),
        CancelPhase::ReplyObserved => if executed == 0 {
            SignalStep::Quiet
        } else {
            SignalStep::RaiseAt(WorkerPhase::ReplyObserved)
        },
    }
}

/// What was seen of the worker of a response.
#[derive(Clone, Copy, Debug, PartialEq, Eq, Structural)]
pub struct LifecycleFacts {
    pub worker_dropped: bool,
    pub handler_error: Option<usize>,
    pub queued: u8,
    pub executed: u8,
    pub replies: u8,
    pub raw_actions: u8,
    pub failure: ResponseWorkerFailure,
}

/// What is wrong with the life of a worker.
#[derive(Clone, Copy, Debug, PartialEq, Eq, Structural)]
pub enum LifecycleFault {
    WorkerAlive,
    Raise(usize),
    Mismatch { queued: u8, executed: u8, replies: u8, raw_actions: u8 },
    Failed(ResponseWorkerFailure),
}

impl LifecycleFault {
    /// The message of a fault of the library's own.
    pub open spec fn words(self) -> Option<Seq<char>> {
        match self {
            LifecycleFault::WorkerAlive => Some(WorkerKind::Response.alive_words()),
            LifecycleFault::Raise(_) => None,
            LifecycleFault::Mismatch { queued, executed, replies, raw_actions } => Some(
                "response lifecycle mismatch: queued="@ + decimal(queued as nat) + ", execute="@
                    + decimal(executed as nat) + ", replies="@ + decimal(replies as nat)
                    + ", raw_actions="@ + decimal(raw_actions as nat),
            ),
            LifecycleFault::Failed(failure) => Some("response worker failed: "@ + failure.label()),
        }
    }

    /// The message of a fault of the library's own.
    pub fn message(&self) -> (text: Option<String>)
        ensures
            optional_view(text) == self.words(),
    {
        match self {
            LifecycleFault::WorkerAlive => Some(
                String::from_str("response worker was not dropped before its origin owner"),
            ),
            LifecycleFault::Raise(_) => None,
            LifecycleFault::Mismatch { queued, executed, replies, raw_actions } => {
                let mut text = String::from_str("response lifecycle mismatch: queued=");
                text.append(render_decimal(*queued as u64).as_str());
                text.append(", execute=");
                text.append(render_decimal(*executed as u64).as_str());
                text.append(", replies=");
                text.append(render_decimal(*replies as u64).as_str());
                text.append(", raw_actions=");
                text.append(render_decimal(*raw_actions as u64).as_str());
                Some(text)
            },
            LifecycleFault::Failed(failure) => {
                let mut text = String::from_str("response worker failed: ");
                text.append(failure.name());
                Some(text)
            },
        }
    }
}

/// Whether the counts are those of a phase: nothing before the first poll, one
/// queued action before it is taken up, and one of everything after the reply.
pub open spec fn counts_fit(phase: CancelPhase, facts: LifecycleFacts) -> bool {
    let one = if phase is ReplyObserved {
        1u8
    } else {
        0u8
    };
    &&& facts.queued == (if phase is BeforePoll {
        0u8
    } else {
        1u8
    })
    &&& facts.executed == one
    &&& facts.replies == one
    &&& facts.raw_actions == one
}

/// What is wrong with the life of a worker, if anything.
pub open spec fn lifecycle_fault(phase: CancelPhase, facts: LifecycleFacts) -> Option<LifecycleFault> {
    if !facts.worker_dropped {
        Some(LifecycleFault::WorkerAlive)
    } else {
        match facts.handler_error {
            Some(error) => Some(LifecycleFault::Raise(error)),
            None => if !counts_fit(phase, facts) {
                Some(
                    LifecycleFault::Mismatch {
                        queued: facts.queued,
                        executed: facts.executed,
                        replies: facts.replies,
                        raw_actions: facts.raw_actions,
                    },
                )
            } else if facts.failure != ResponseWorkerFailure::Absent {
                Some(LifecycleFault::Failed(facts.failure))
            } else {
                None
            },
        }
    }
}

/// Checks the life of a worker.
pub fn response_lifecycle(phase: CancelPhase, facts: LifecycleFacts) -> (fault: Option<LifecycleFault>)
    ensures
        fault == lifecycle_fault(phase, facts),
{
    if !facts.worker_dropped {
        return Some(LifecycleFault::WorkerAlive);
    }
    match facts.handler_error {
        Some(error) => {
            return Some(LifecycleFault::Raise(error));
        },
        None => {},
    }
    let (queued, one): (u8, u8) = match phase {
        CancelPhase::BeforePoll => (0, 0),
        CancelPhase::QueuedBeforeDequeue => (1, 0),
        CancelPhase::ReplyObserved => (1, 1),
    };
    if facts.queued != queued || facts.executed != one || facts.replies != one || facts.raw_actions
        != one {
        return Some(
            LifecycleFault::Mismatch {
                queued: facts.queued,
                executed: facts.executed,
                replies: facts.replies,
                raw_actions: facts.raw_actions,
            },
        );
    }
    match facts.failure {
        ResponseWorkerFailure::Absent => None,
        failure => Some(LifecycleFault::Failed(failure)),
    }
}

/// A worker that is cancelled where it was meant to be has counted exactly what
/// its check asks for, and nothing is wrong with its life.
pub proof fn law_a_cancelled_worker_passes(phase: CancelPhase)
    ensures
        ({
            let start = LifecycleWorker::start(phase);
            let queued = LifecycleWorker {
                phase: WorkerPhase::AwaitingReply,
                queued: saturated(start.queued),
                ..start
            };
            let replied = LifecycleWorker {
                replies: saturated(queued.replies),
                phase: WorkerPhase::ReplyObserved,
                ..queued
            };
            let worker = match phase {
                CancelPhase::BeforePoll => start,
                CancelPhase::QueuedBeforeDequeue => queued,
                CancelPhase::ReplyObserved => replied,
            };
            let executed = if phase is ReplyObserved {
                saturated(0)
            } else {
                0u8
            };
            lifecycle_fault(
                phase,
                LifecycleFacts {
                    worker_dropped: true,
                    handler_error: None,
                    queued: worker.queued,
                    executed,
                    replies: worker.replies,
                    raw_actions: executed,
                    failure: worker.failure,
                },
            ) is None
        }),
{
}

/// Which end of the bridge of a body is cut.
#[derive(Clone, Copy, Debug, PartialEq, Eq, Structural)]
pub enum DisconnectMode {
    ActionReceiver,
    ReplySender,
}

/// The mode of a name.
pub open spec fn mode_named(name: Seq<char>) -> Option<DisconnectMode> {
    if name == "action-receiver"@ {
        Some(DisconnectMode::ActionReceiver)
    } else if name == "reply-sender"@ {
        Some(DisconnectMode::ReplySender)
    } else {
        None
    }
}

/// The mode of a name, or the message that there is none.
pub fn disconnect_mode(name: &str) -> (mode: Result<DisconnectMode, String>)
    ensures
        match mode {
            Ok(mode) => mode_named(name@) == Some(mode),
            Err(message) => mode_named(name@) is None && message@
                == "unknown body disconnect mode: "@ + name@,
        },
{
    if same_text(name, "action-receiver") {
        Ok(DisconnectMode::ActionReceiver)
    } else if same_text(name, "reply-sender") {
        Ok(DisconnectMode::ReplySender)
    } else {
        let mut message = String::from_str("unknown body disconnect mode: ");
        message.append(name);
        Err(message)
    }
}

/// What a failure of a body is called.
pub open spec fn failure_label(failure: AdapterFailure) -> Seq<char> {
    match failure {
        AdapterFailure::Absent => "None"@,
        AdapterFailure::Handler => "Handler"@,
        AdapterFailure::ActionReceiver => "ActionReceiver"@,
        AdapterFailure::ReplySender => "ReplySender"@,
    }
}

/// What a failure of a body is called.
fn failure_name(failure: AdapterFailure) -> (name: &'static str)
    ensures
        name@ == failure_label(failure),
{
    match failure {
        AdapterFailure::Absent => "None",
        AdapterFailure::Handler => "Handler",
        AdapterFailure::ActionReceiver => "ActionReceiver",
        AdapterFailure::ReplySender => "ReplySender",
    }
}

/// The failure that cutting an end of the bridge has to lead to.
pub open spec fn expected_failure(mode: DisconnectMode) -> AdapterFailure {
    match mode {
        DisconnectMode::ActionReceiver => AdapterFailure::ActionReceiver,
        DisconnectMode::ReplySender => AdapterFailure::ReplySender,
    }
}

/// The message where cutting an end of the bridge led to another failure than
/// it has to.
pub fn disconnect_fault(mode: DisconnectMode, observed: AdapterFailure) -> (fault: Option<String>)
    ensures
        match fault {
            Some(text) => observed != expected_failure(mode) && text@
                == "body disconnect mismatch: expected "@ + failure_label(expected_failure(mode))
                + ", observed "@ + failure_label(observed),
            None => observed == expected_failure(mode),
        },
{
    let expected = match mode {
        DisconnectMode::ActionReceiver => AdapterFailure::ActionReceiver,
        DisconnectMode::ReplySender => AdapterFailure::ReplySender,
    };
    if observed == expected {
        return None;
    }
    let mut text = String::from_str("body disconnect mismatch: expected ");
    text.append(failure_name(expected));
    text.append(", observed ");
    text.append(failure_name(observed));
    Some(text)
}

/// What cannot be done with an empty body.
#[derive(Clone, Copy, Debug, PartialEq, Eq, Structural)]
pub enum EmptyBodyUse {
    Cancel,
    Poll,
    Disconnect,
}

impl EmptyBodyUse {
    /// The message.
    pub open spec fn words(self) -> Seq<char> {
        match self {
            EmptyBodyUse::Cancel => "cannot cancel an empty body"@,
            EmptyBodyUse::Poll => "cannot poll an empty body"@,
            EmptyBodyUse::Disconnect => "cannot disconnect an empty body"@,
        }
    }

    /// The message.
    pub fn message(&self) -> (text: String)
        ensures
            text@ == self.words(),
    {
        match self {
            EmptyBodyUse::Cancel => String::from_str("cannot cancel an empty body"),
            EmptyBodyUse::Poll => String::from_str("cannot poll an empty body"),
            EmptyBodyUse::Disconnect => String::from_str("cannot disconnect an empty body"),
        }
    }
}

/// A cancelled worker is in order exactly where it is gone, no error was kept, no
/// failure was seen, and no more has happened than its phase allows: nothing
/// before the first poll, one queued action before it is taken up, and one action
/// of each kind once the reply was seen.
pub proof fn law_lifecycles_leave_nothing_behind(phase: CancelPhase, facts: LifecycleFacts)
    ensures
        lifecycle_fault(phase, facts) is None <==> {
            &&& facts.worker_dropped
            &&& facts.handler_error is None
            &&& facts.failure is Absent
            &&& phase is BeforePoll ==> facts.queued == 0
            &&& !(phase is BeforePoll) ==> facts.queued == 1
            &&& phase is ReplyObserved ==> facts.executed == 1 && facts.replies == 1
                && facts.raw_actions == 1
            &&& !(phase is ReplyObserved) ==> facts.executed == 0 && facts.replies == 0
                && facts.raw_actions == 0
        },
        !facts.worker_dropped ==> lifecycle_fault(phase, facts) == Some(
            LifecycleFault::WorkerAlive,
        ),
        facts.worker_dropped ==> (facts.handler_error matches Some(error) ==> lifecycle_fault(
            phase,
            facts,
        ) == Some(LifecycleFault::Raise(error))),
{
}

/// A count goes up by one, and stays at its largest.
pub proof fn law_counts_go_up(count: u8)
    ensures
        count < u8::MAX ==> saturated(count) == count + 1,
        count == u8::MAX ==> saturated(count) == count,
{
}

/// A name stands for one way to be disconnected only, and each way is met with its
/// own failure.
pub proof fn law_ways_to_be_disconnected(name: Seq<char>, mode: DisconnectMode)
    ensures
        mode_named(name) == Some(DisconnectMode::ActionReceiver) ==> name == "action-receiver"@,
        mode_named(name) == Some(DisconnectMode::ReplySender) ==> name == "reply-sender"@,
        mode_named(name) is None <==> name != "action-receiver"@ && name != "reply-sender"@,
        expected_failure(mode) is ActionReceiver <==> mode is ActionReceiver,
        expected_failure(mode) is ReplySender <==> mode is ReplySender,
{
}

/// Phases of a worker are told apart by their numbers, in the order in which they
/// come.
pub proof fn law_phases_are_told_by_number(first: WorkerPhase, second: WorkerPhase)
    ensures
        first.raw() == second.raw() ==> first == second,
        WorkerPhase::Starting.raw() < WorkerPhase::AwaitingReply.raw(),
        WorkerPhase::AwaitingReply.raw() < WorkerPhase::ReplyObserved.raw(),
        WorkerPhase::ReplyObserved.raw() < WorkerPhase::Dropped.raw(),
{
}

/// Each response worker failure has its own label.
pub proof fn law_labels_of_response_worker_failure()
    ensures
        ResponseWorkerFailure::Absent.label() == "None"@,
        ResponseWorkerFailure::ActionReceiver.label() == "ActionReceiver"@,
        ResponseWorkerFailure::ReplySender.label() == "ReplySender"@,
        ResponseWorkerFailure::Handler.label() == "Handler"@,
{
}

/// Each use of an empty body has its own words.
pub proof fn law_words_of_empty_body_use()
    ensures
        EmptyBodyUse::Cancel.words() == "cannot cancel an empty body"@,
        EmptyBodyUse::Poll.words() == "cannot poll an empty body"@,
        EmptyBodyUse::Disconnect.words() == "cannot disconnect an empty body"@,
{
}

/// What a worker did not reach is told with the kind of the worker, and a failure
/// of a body is called by its own name.
pub proof fn law_words_of_workers(label: Seq<char>)
    ensures
        WorkerKind::Body.late_words(label) == "body worker did not reach "@ + label,
        WorkerKind::Response.late_words(label) == "response worker did not reach "@ + label,
        failure_label(AdapterFailure::Absent) == "None"@,
        failure_label(AdapterFailure::Handler) == "Handler"@,
        failure_label(AdapterFailure::ActionReceiver) == "ActionReceiver"@,
        failure_label(AdapterFailure::ReplySender) == "ReplySender"@,
{
}

} // verus!
