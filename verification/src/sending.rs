//! How a native send goes on: when it is tried again, what it returns, and which
//! Python error its failure becomes.

use vstd::prelude::*;
use vstd::string::StringExecFns;

use crate::adapter_state::live_adapter_global;
use crate::admission::{is_unverified, AdmissionStop, AdmitCall};
use crate::errors::{is_subclass, validate_exception_class, ErrorKind};
use crate::errors::{derives_from, is_exception_class};
use crate::heap::{Check, Failure, Heap};
use crate::registry::PoolRefusal;
use crate::retry::{retry_reason, RetryReason};
use crate::retry::exact_bool_value;
use crate::text::render_decimal;
use crate::text::decimal;

verus! {

/// Whether a status redirects.
pub open spec fn redirects(status: u16) -> bool {
    status == 301 || status == 302 || status == 303 || status == 307 || status == 308
}

/// Where a response redirects to: its location, where it has one that is not
/// empty.
pub fn redirect_location(status: u16, location: Option<&str>) -> (target: Option<String>)
    ensures
        match target {
            Some(target) => redirects(status) && (location matches Some(text) && target@ == text@
                && text@.len() > 0),
            None => !redirects(status) || (location matches Some(text) ==> text@.len() == 0),
        },
{
    if !(status == 301 || status == 302 || status == 303 || status == 307 || status == 308) {
        return None;
    }
    match location {
        None => None,
        Some(text) => {
            let chars = crate::text::chars_of(text);
            if chars.len() == 0 {
                None
            } else {
                Some(String::from_str(text))
            }
        },
    }
}

/// Whether a response says when to try again: its header is there, and not empty.
pub fn has_retry_after(value: Option<&str>) -> (has: bool)
    ensures
        has == (value matches Some(value) && value@.len() > 0),
{
    match value {
        Some(value) => value.unicode_len() > 0,
        None => false,
    }
}

/// What the taking over of a send does next. Up to the selection of a pool the
/// send may go back to Python. Entering the manager commits it: what the manager
/// then does would be seen twice if Python's own code ran after it.
#[derive(Clone, Copy, Debug, PartialEq, Eq, Structural)]
pub enum CommitCall {
    /// Does the caller want certificates to be verified?
    CheckVerify,
    /// Read the adapter, the request and the settings.
    Admit,
    /// Select the native pool.
    SelectPool,
    /// Have the manager give its own pool.
    EnterManager,
    /// Record what the manager has become.
    RecordManager,
    /// Send the request.
    Send,
    /// Python's own code sends the request.
    FallBack,
    /// Raise the error for managers that changed after the commitment.
    RaiseChanged { through_proxy: bool },
    /// The error goes on.
    RaiseCurrent,
}

/// What happened.
#[derive(Clone, Copy, Debug, PartialEq, Eq, Structural)]
pub enum CommitEvent {
    Done,
    /// The request cannot be taken over.
    Refused,
    /// The managers changed.
    Changed { through_proxy: bool },
    Raised,
}

/// Where the taking over of a send stands.
#[derive(Clone, Copy, Debug, PartialEq, Eq, Structural)]
pub struct CommitState {
    pub call: CommitCall,
}

/// Whether a taking over has ended.
pub open spec fn has_ended(call: CommitCall) -> bool {
    call is Send || call is FallBack || call is RaiseChanged || call is RaiseCurrent
}

/// What the taking over of a send does after something happened. One that has
/// ended stays as it is.
pub open spec fn next_commit(call: CommitCall, event: CommitEvent) -> CommitCall {
    if has_ended(call) {
        call
    } else {
        match (call, event) {
            (CommitCall::CheckVerify, CommitEvent::Done) => CommitCall::Admit,
            (CommitCall::CheckVerify, CommitEvent::Refused) => CommitCall::FallBack,
            (CommitCall::Admit, CommitEvent::Done) => CommitCall::SelectPool,
            (CommitCall::Admit, CommitEvent::Refused) => CommitCall::FallBack,
            (CommitCall::SelectPool, CommitEvent::Done) => CommitCall::EnterManager,
            (CommitCall::SelectPool, CommitEvent::Refused) => CommitCall::FallBack,
            (CommitCall::EnterManager, CommitEvent::Done) => CommitCall::RecordManager,
            (CommitCall::RecordManager, CommitEvent::Done) => CommitCall::Send,
            (
                CommitCall::RecordManager,
                CommitEvent::Changed { through_proxy },
            ) => CommitCall::RaiseChanged { through_proxy },
            _ => CommitCall::RaiseCurrent,
        }
    }
}

impl CommitState {
    /// Begins to take a send over.
    pub fn new() -> (state: Self)
        ensures
            state.call == CommitCall::CheckVerify,
    {
        CommitState { call: CommitCall::CheckVerify }
    }

    /// Goes on after something happened.
    pub fn step(&mut self, event: CommitEvent)
        ensures
            final(self).call == next_commit(old(self).call, event),
    {
        let call = match (self.call, event) {
            (CommitCall::Send, _) => CommitCall::Send,
            (CommitCall::FallBack, _) => CommitCall::FallBack,
            (CommitCall::RaiseChanged { through_proxy }, _) => CommitCall::RaiseChanged {
                through_proxy,
            },
            (CommitCall::CheckVerify, CommitEvent::Done) => CommitCall::Admit,
            (CommitCall::CheckVerify, CommitEvent::Refused) => CommitCall::FallBack,
            (CommitCall::Admit, CommitEvent::Done) => CommitCall::SelectPool,
            (CommitCall::Admit, CommitEvent::Refused) => CommitCall::FallBack,
            (CommitCall::SelectPool, CommitEvent::Done) => CommitCall::EnterManager,
            (CommitCall::SelectPool, CommitEvent::Refused) => CommitCall::FallBack,
            (CommitCall::EnterManager, CommitEvent::Done) => CommitCall::RecordManager,
            (CommitCall::RecordManager, CommitEvent::Done) => CommitCall::Send,
            (
                CommitCall::RecordManager,
                CommitEvent::Changed { through_proxy },
            ) => CommitCall::RaiseChanged { through_proxy },
            _ => CommitCall::RaiseCurrent,
        };
        self.call = call;
    }
}

/// What the `verify` argument means for the taking over of a send: without
/// verification it is refused.
pub fn verify_event(heap: &Heap, verify: usize) -> (event: CommitEvent)
    ensures
        event == (if exact_bool_value(*heap, verify) == Some(false) {
            CommitEvent::Refused
        } else {
            CommitEvent::Done
        }),
{
    if is_unverified(heap, verify) {
        CommitEvent::Refused
    } else {
        CommitEvent::Done
    }
}

/// What the end of an admission means for the taking over of a send: any
/// refusal refuses it, and a failed reading is an error. An admission that has
/// not ended means nothing yet.
pub fn admission_event(call: AdmitCall) -> (event: Option<CommitEvent>)
    ensures
        event == (match call {
            AdmitCall::Admitted { .. } => Some(CommitEvent::Done),
            AdmitCall::Stop(AdmissionStop::Refused(_)) => Some(CommitEvent::Refused),
            AdmitCall::Stop(AdmissionStop::Failed(_)) => Some(CommitEvent::Raised),
            AdmitCall::RaiseCurrent => Some(CommitEvent::Raised),
            _ => None,
        }),
{
    match call {
        AdmitCall::Admitted { .. } => Some(CommitEvent::Done),
        AdmitCall::Stop(AdmissionStop::Refused(_)) => Some(CommitEvent::Refused),
        AdmitCall::Stop(AdmissionStop::Failed(_)) => Some(CommitEvent::Raised),
        AdmitCall::RaiseCurrent => Some(CommitEvent::Raised),
        _ => None,
    }
}

/// What the selection of a pool means for the taking over of a send: any
/// refusal refuses it.
pub fn selection_event(refusal: Option<PoolRefusal>) -> (event: CommitEvent)
    ensures
        event == (if refusal is Some {
            CommitEvent::Refused
        } else {
            CommitEvent::Done
        }),
{
    match refusal {
        Some(_) => CommitEvent::Refused,
        None => CommitEvent::Done,
    }
}

/// What the recording of a manager means for the taking over of a send: a
/// manager that cannot be recorded has changed.
pub fn recording_event(recorded: bool, through_proxy: bool) -> (event: CommitEvent)
    ensures
        event == (if recorded {
            CommitEvent::Done
        } else {
            CommitEvent::Changed { through_proxy }
        }),
{
    if recorded {
        CommitEvent::Done
    } else {
        CommitEvent::Changed { through_proxy }
    }
}

/// Where the taking over of a send stands after a list of events.
pub open spec fn commit_after(events: Seq<CommitEvent>) -> CommitCall
    decreases events.len(),
{
    if events.len() == 0 {
        CommitCall::CheckVerify
    } else {
        next_commit(commit_after(events.drop_last()), events.last())
    }
}

/// Whether a taking over has entered the manager, or is about to.
pub open spec fn is_committed(call: CommitCall) -> bool {
    call is EnterManager || call is RecordManager || call is Send || call is RaiseChanged
}

/// What was committed stays so, or ends in an error.
proof fn lemma_commitment_stays(events: Seq<CommitEvent>, count: int)
    requires
        0 <= count <= events.len(),
        is_committed(commit_after(events.take(count))),
    ensures
        is_committed(commit_after(events)) || commit_after(events) is RaiseCurrent,
    decreases events.len() - count,
{
    if count == events.len() {
        assert(events.take(count) =~= events);
    } else {
        let before = events.drop_last();
        assert(before.take(count) =~= events.take(count));
        lemma_commitment_stays(before, count);
    }
}

/// What has ended stays as it is.
proof fn lemma_end_stays(events: Seq<CommitEvent>, count: int)
    requires
        0 <= count <= events.len(),
        has_ended(commit_after(events.take(count))),
    ensures
        commit_after(events) == commit_after(events.take(count)),
    decreases events.len() - count,
{
    if count == events.len() {
        assert(events.take(count) =~= events);
    } else {
        let before = events.drop_last();
        assert(before.take(count) =~= events.take(count));
        lemma_end_stays(before, count);
    }
}

/// A send goes back to Python only before the manager is entered: whoever falls
/// back was committed at no time before, and whoever was committed ends in a
/// send or an error. Every refusal before the commitment falls back. A manager
/// that changed after it raises, and the request is not sent.
pub proof fn law_fall_back_comes_before_commitment(
    events: Seq<CommitEvent>,
    count: int,
    event: CommitEvent,
)
    requires
        0 <= count <= events.len(),
    ensures
        commit_after(events) is FallBack ==> !is_committed(commit_after(events.take(count))),
        is_committed(commit_after(events.take(count))) ==> is_committed(commit_after(events))
            || commit_after(events) is RaiseCurrent,
        !is_committed(commit_after(events)) && !has_ended(commit_after(events)) ==> commit_after(
            events.push(CommitEvent::Refused),
        ) is FallBack,
        commit_after(events) is EnterManager || commit_after(events) is RecordManager
            ==> !(commit_after(events.push(event)) is FallBack),
        commit_after(events) is RecordManager ==> (event matches CommitEvent::Changed {
            through_proxy,
        } ==> commit_after(events.push(event)) == CommitCall::RaiseChanged { through_proxy }),
        commit_after(events.take(count)) is RaiseChanged ==> commit_after(events) == commit_after(
            events.take(count),
        ),
        commit_after(events.take(count)) is FallBack ==> commit_after(events) is FallBack,
{
    if is_committed(commit_after(events.take(count))) {
        lemma_commitment_stays(events, count);
    }
    if has_ended(commit_after(events.take(count))) {
        lemma_end_stays(events, count);
    }
    assert(events.push(CommitEvent::Refused).drop_last() =~= events);
    assert(events.push(event).drop_last() =~= events);
}

/// A request is sent only after five steps that all went well: verification is
/// wanted, the request is admitted, a pool is selected, the manager was entered
/// and recorded.
pub proof fn law_sends_are_committed_first(events: Seq<CommitEvent>)
    ensures
        commit_after(events) is Send <==> events.len() >= 5 && forall|index: int|
            0 <= index < 5 ==> #[trigger] events[index] is Done,
{
    if events.len() >= 5 {
        let first = events.take(5);
        lemma_five_steps(first);
        assert(events.take(5) =~= first);
        assert(has_ended(commit_after(first)));
        lemma_end_stays(events, 5);
        assert forall|index: int| 0 <= index < 5 implies first[index] == events[index] by {
        }
    } else {
        lemma_few_steps(events);
    }
}

/// After fewer than five events nothing is sent.
proof fn lemma_few_steps(events: Seq<CommitEvent>)
    requires
        events.len() < 5,
    ensures
        !(commit_after(events) is Send),
        commit_after(events) is RecordManager ==> events.len() == 4,
        commit_after(events) is EnterManager ==> events.len() == 3,
        commit_after(events) is SelectPool ==> events.len() == 2,
        commit_after(events) is Admit ==> events.len() == 1,
        commit_after(events) is CheckVerify ==> events.len() == 0,
        !has_ended(commit_after(events)) ==> forall|index: int|
            0 <= index < events.len() ==> #[trigger] events[index] is Done,
    decreases events.len(),
{
    if events.len() > 0 {
        let before = events.drop_last();
        lemma_few_steps(before);
        if !has_ended(commit_after(events)) {
            assert forall|index: int| 0 <= index < events.len() implies #[trigger] events[index] is Done by {
                if index < before.len() {
                    assert(before[index] == events[index]);
                }
            }
        }
    }
}

/// Five events end the taking over, and in a send exactly where all went well.
proof fn lemma_five_steps(events: Seq<CommitEvent>)
    requires
        events.len() == 5,
    ensures
        has_ended(commit_after(events)),
        commit_after(events) is Send <==> forall|index: int|
            0 <= index < 5 ==> #[trigger] events[index] is Done,
{
    let before = events.drop_last();
    lemma_few_steps(before);
    if forall|index: int| 0 <= index < 5 ==> #[trigger] events[index] is Done {
        lemma_all_done(before);
        assert(events[4] is Done);
    }
    if commit_after(events) is Send {
        assert forall|index: int| 0 <= index < 5 implies #[trigger] events[index] is Done by {
            if index < 4 {
                assert(before[index] == events[index]);
            }
        }
    }
}

/// Four steps that went well lead to the recording.
proof fn lemma_all_done(events: Seq<CommitEvent>)
    requires
        events.len() == 4,
        forall|index: int| 0 <= index < 4 ==> #[trigger] events[index] is Done,
    ensures
        commit_after(events) is RecordManager,
{
    reveal_with_fuel(commit_after, 5);
    assert(events[3] is Done && events[2] is Done && events[1] is Done && events[0] is Done);
}

/// What a send does next.
#[derive(Clone, Copy, Debug, PartialEq, Eq, Structural)]
pub enum SendCall {
    /// Send the request.
    Attempt,
    /// May the method be repeated?
    AllowsMethod,
    /// Count a failure, for this reason.
    CountFailure(RetryReason),
    /// Is the response one to try again?
    IsRetry,
    /// Count a response.
    CountStatus,
    /// Read what is left of the response, and give its connection back.
    Drain,
    /// Read what is left of the response, which was one too many.
    DrainLast,
    /// How long does the response ask to wait?
    ReadRetryAfter,
    /// Wait as long as the response asked.
    SleepAsked,
    /// Wait as long as the policy says.
    SleepBackoff,
    /// Raise the error that the failure becomes.
    RaiseTransport,
    /// Raise the error for too many responses.
    RaiseTooMany,
    /// Return the response.
    BuildResponse,
    /// The error goes on.
    RaiseCurrent,
}

/// What happened.
#[derive(Clone, Copy, Debug, PartialEq, Eq, Structural)]
pub enum SendEvent {
    Failed(ErrorKind),
    Responded { status: u16, has_retry_after: bool },
    Yes,
    No,
    Done,
    /// No try is left.
    Exhausted,
    Raised,
}

/// What a send remembers.
#[derive(Clone, Copy, Debug, PartialEq, Eq, Structural)]
pub struct SendMemory {
    pub respect_retry_after: bool,
    pub raise_on_status: bool,
    pub reason: RetryReason,
    pub status: u16,
    pub has_retry_after: bool,
}

/// Where a send stands.
#[derive(Clone, Copy, Debug, PartialEq, Eq, Structural)]
pub struct SendState {
    pub memory: SendMemory,
    pub call: SendCall,
}

/// What the reason for a kind of failure is.
pub open spec fn reason_of(kind: ErrorKind) -> RetryReason {
    match kind {
        ErrorKind::Connect | ErrorKind::ConnectTimeout | ErrorKind::Dns => RetryReason::Connect,
        ErrorKind::ReadTimeout
        | ErrorKind::ResponseBody
        | ErrorKind::ChunkedEncoding
        | ErrorKind::Connection
        | ErrorKind::Send => RetryReason::Read,
        _ => RetryReason::Other,
    }
}

/// Where a send stands after something happened.
pub open spec fn next_send(state: SendState, event: SendEvent) -> SendState {
    let memory = state.memory;
    match (state.call, event) {
        (SendCall::Attempt, SendEvent::Failed(kind)) => {
            let reason = reason_of(kind);
            SendState {
                memory: SendMemory { reason, ..memory },
                call: if reason is Read {
                    SendCall::AllowsMethod
                } else {
                    SendCall::CountFailure(reason)
                },
            }
        },
        (SendCall::Attempt, SendEvent::Responded { status, has_retry_after }) => SendState {
            memory: SendMemory { status, has_retry_after, ..memory },
            call: SendCall::IsRetry,
        },
        (SendCall::AllowsMethod, SendEvent::Yes) => SendState {
            memory,
            call: SendCall::CountFailure(memory.reason),
        },
        (SendCall::AllowsMethod, SendEvent::No) => SendState {
            memory,
            call: SendCall::RaiseTransport,
        },
        (SendCall::CountFailure(_), SendEvent::Done) => SendState {
            memory,
            call: SendCall::SleepBackoff,
        },
        (SendCall::CountFailure(_), SendEvent::Exhausted) => SendState {
            memory,
            call: SendCall::RaiseTransport,
        },
        (SendCall::IsRetry, SendEvent::No) => SendState { memory, call: SendCall::BuildResponse },
        (SendCall::IsRetry, SendEvent::Yes) => SendState { memory, call: SendCall::CountStatus },
        (SendCall::CountStatus, SendEvent::Done) => SendState { memory, call: SendCall::Drain },
        (SendCall::CountStatus, SendEvent::Exhausted) => SendState {
            memory,
            call: if memory.raise_on_status {
                SendCall::DrainLast
            } else {
                SendCall::BuildResponse
            },
        },
        (SendCall::DrainLast, SendEvent::Done) => SendState {
            memory,
            call: SendCall::RaiseTooMany,
        },
        (SendCall::Drain, SendEvent::Done) => SendState {
            memory,
            call: if memory.respect_retry_after && memory.has_retry_after {
                SendCall::ReadRetryAfter
            } else {
                SendCall::SleepBackoff
            },
        },
        (SendCall::ReadRetryAfter, SendEvent::Yes) => SendState {
            memory,
            call: SendCall::SleepAsked,
        },
        (SendCall::ReadRetryAfter, SendEvent::No) => SendState {
            memory,
            call: SendCall::SleepBackoff,
        },
        (SendCall::SleepAsked, SendEvent::Done) => SendState { memory, call: SendCall::Attempt },
        (SendCall::SleepBackoff, SendEvent::Done) => SendState { memory, call: SendCall::Attempt },
        _ => SendState { memory, call: SendCall::RaiseCurrent },
    }
}

impl SendState {
    /// A send that begins.
    pub open spec fn beginning(respect_retry_after: bool, raise_on_status: bool) -> Self {
        SendState {
            memory: SendMemory {
                respect_retry_after,
                raise_on_status,
                reason: RetryReason::Other,
                status: 0,
                has_retry_after: false,
            },
            call: SendCall::Attempt,
        }
    }

    /// Begins a send.
    pub fn new(respect_retry_after: bool, raise_on_status: bool) -> (state: Self)
        ensures
            state == Self::beginning(respect_retry_after, raise_on_status),
    {
        SendState {
            memory: SendMemory {
                respect_retry_after,
                raise_on_status,
                reason: RetryReason::Other,
                status: 0,
                has_retry_after: false,
            },
            call: SendCall::Attempt,
        }
    }

    /// Goes on after something happened.
    pub fn adapter_send(&mut self, event: SendEvent)
        ensures
            *final(self) == next_send(*old(self), event),
    {
        let call = match (self.call, event) {
            (SendCall::Attempt, SendEvent::Failed(kind)) => {
                let reason = retry_reason(kind);
                self.memory.reason = reason;
                match reason {
                    RetryReason::Read => SendCall::AllowsMethod,
                    _ => SendCall::CountFailure(reason),
                }
            },
            (SendCall::Attempt, SendEvent::Responded { status, has_retry_after }) => {
                self.memory.status = status;
                self.memory.has_retry_after = has_retry_after;
                SendCall::IsRetry
            },
            (SendCall::AllowsMethod, SendEvent::Yes) => SendCall::CountFailure(self.memory.reason),
            (SendCall::AllowsMethod, SendEvent::No) => SendCall::RaiseTransport,
            (SendCall::CountFailure(_), SendEvent::Done) => SendCall::SleepBackoff,
            (SendCall::CountFailure(_), SendEvent::Exhausted) => SendCall::RaiseTransport,
            (SendCall::IsRetry, SendEvent::No) => SendCall::BuildResponse,
            (SendCall::IsRetry, SendEvent::Yes) => SendCall::CountStatus,
            (SendCall::CountStatus, SendEvent::Done) => SendCall::Drain,
            (SendCall::CountStatus, SendEvent::Exhausted) => if self.memory.raise_on_status {
                SendCall::DrainLast
            } else {
                SendCall::BuildResponse
            },
            (SendCall::DrainLast, SendEvent::Done) => SendCall::RaiseTooMany,
            (SendCall::Drain, SendEvent::Done) => if self.memory.respect_retry_after
                && self.memory.has_retry_after {
                SendCall::ReadRetryAfter
            } else {
                SendCall::SleepBackoff
            },
            (SendCall::ReadRetryAfter, SendEvent::Yes) => SendCall::SleepAsked,
            (SendCall::ReadRetryAfter, SendEvent::No) => SendCall::SleepBackoff,
            (SendCall::SleepAsked, SendEvent::Done) => SendCall::Attempt,
            (SendCall::SleepBackoff, SendEvent::Done) => SendCall::Attempt,
            _ => SendCall::RaiseCurrent,
        };
        self.call = call;
    }
}

/// Where a send stands after a list of events.
pub open spec fn send_after(state: SendState, events: Seq<SendEvent>) -> SendState
    decreases events.len(),
{
    if events.len() == 0 {
        state
    } else {
        next_send(send_after(state, events.drop_last()), events.last())
    }
}

/// How often a request was sent.
pub open spec fn sends(state: SendState, events: Seq<SendEvent>) -> nat
    decreases events.len(),
{
    if events.len() == 0 {
        0
    } else {
        let before = send_after(state, events.drop_last());
        sends(state, events.drop_last()) + (if before.call is Attempt {
            1nat
        } else {
            0nat
        })
    }
}

/// How often another try was granted.
pub open spec fn grants(state: SendState, events: Seq<SendEvent>) -> nat
    decreases events.len(),
{
    if events.len() == 0 {
        0
    } else {
        let before = send_after(state, events.drop_last());
        grants(state, events.drop_last()) + (if (before.call is CountFailure || before.call
            is CountStatus) && events.last() is Done {
            1nat
        } else {
            0nat
        })
    }
}

/// Whether a send is between a granted try and the try itself.
pub open spec fn is_granted(call: SendCall) -> bool {
    call is Drain || call is ReadRetryAfter || call is SleepAsked || call is SleepBackoff || call
        is Attempt
}

/// A request is sent once, and once more for each try that the policy granted:
/// never more often.
pub proof fn law_every_repeat_is_granted(
    respect_retry_after: bool,
    raise_on_status: bool,
    events: Seq<SendEvent>,
)
    ensures
        sends(SendState::beginning(respect_retry_after, raise_on_status), events) <= grants(
            SendState::beginning(respect_retry_after, raise_on_status),
            events,
        ) + 1,
{
    let start = SendState::beginning(respect_retry_after, raise_on_status);
    lemma_grants(start, events);
}

/// Sends that were made, or are granted and not yet made, are one more than were
/// granted.
proof fn lemma_grants(start: SendState, events: Seq<SendEvent>)
    requires
        start.call is Attempt,
    ensures
        sends(start, events) + (if is_granted(send_after(start, events).call) {
            1nat
        } else {
            0nat
        }) <= grants(start, events) + 1,
    decreases events.len(),
{
    if events.len() > 0 {
        lemma_grants(start, events.drop_last());
    }
}

/// A request whose reply was lost is not sent again where its method may not be
/// repeated; and where no try is left, a response is returned unless the policy
/// raises an error for it.
pub proof fn law_policy_decides(state: SendState, kind: ErrorKind)
    ensures
        state.call is Attempt && reason_of(kind) is Read ==> next_send(
            next_send(state, SendEvent::Failed(kind)),
            SendEvent::No,
        ).call is RaiseTransport,
        state.call is CountStatus && !state.memory.raise_on_status ==> next_send(
            state,
            SendEvent::Exhausted,
        ).call is BuildResponse,
        state.call is CountStatus && state.memory.raise_on_status ==> next_send(
            next_send(state, SendEvent::Exhausted),
            SendEvent::Done,
        ).call is RaiseTooMany,
{
}

/// How one sending of a request went.
#[derive(Clone, Copy, Debug, PartialEq, Eq, Structural)]
pub enum TryOutcome {
    Failed(ErrorKind),
    Responded { status: u16, has_retry_after: bool },
}

/// What is so about one sending of a request.
#[derive(Clone, Copy, Debug, PartialEq, Eq, Structural)]
pub struct TryFacts {
    pub outcome: TryOutcome,
    /// The policy lets the method be repeated.
    pub allows_method: bool,
    /// The policy takes the response for one to try again.
    pub is_retry: bool,
    /// The policy has another try left.
    pub granted: bool,
    /// The response asks for a time to wait.
    pub asks_to_wait: bool,
}

/// Yes or no.
pub open spec fn send_told(yes: bool) -> SendEvent {
    if yes {
        SendEvent::Yes
    } else {
        SendEvent::No
    }
}

/// What a call of a send brings about.
pub open spec fn send_event(facts: TryFacts, call: SendCall) -> SendEvent {
    match call {
        SendCall::Attempt => match facts.outcome {
            TryOutcome::Failed(kind) => SendEvent::Failed(kind),
            TryOutcome::Responded { status, has_retry_after } => SendEvent::Responded {
                status,
                has_retry_after,
            },
        },
        SendCall::AllowsMethod => send_told(facts.allows_method),
        SendCall::IsRetry => send_told(facts.is_retry),
        SendCall::ReadRetryAfter => send_told(facts.asks_to_wait),
        SendCall::CountFailure(_) | SendCall::CountStatus => if facts.granted {
            SendEvent::Done
        } else {
            SendEvent::Exhausted
        },
        _ => SendEvent::Done,
    }
}

/// Whether a send has ended.
pub open spec fn send_is_over(call: SendCall) -> bool {
    call is RaiseTransport || call is RaiseTooMany || call is BuildResponse || call is RaiseCurrent
}

/// The calls that follow a call, up to the next sending or the end, and where the
/// send then stands.
pub open spec fn rest_of_try(state: SendState, facts: TryFacts, limit: nat) -> (
    Seq<SendCall>,
    SendState,
)
    decreases limit,
{
    if limit == 0 {
        (Seq::empty(), state)
    } else {
        let next = next_send(state, send_event(facts, state.call));
        if next.call is Attempt || send_is_over(next.call) {
            (seq![next.call], next)
        } else {
            let (calls, end) = rest_of_try(next, facts, (limit - 1) as nat);
            (seq![next.call] + calls, end)
        }
    }
}

/// Whether no connection to the server was made.
pub open spec fn was_not_connected(kind: ErrorKind) -> bool {
    kind is Connect || kind is ConnectTimeout || kind is Dns
}

/// Whether the server may have got the request, and its reply was lost.
pub open spec fn reply_was_lost(kind: ErrorKind) -> bool {
    kind is ReadTimeout || kind is ResponseBody || kind is ChunkedEncoding || kind is Connection
        || kind is Send
}

/// The calls after a failure: a lost reply asks first whether the method may be
/// repeated, and ends in the error where it may not. Otherwise the failure is
/// counted for its reason. A granted try waits and sends again; without one the
/// error is raised.
pub open spec fn calls_after_failure(kind: ErrorKind, facts: TryFacts) -> Seq<SendCall> {
    let asked = if reply_was_lost(kind) {
        seq![SendCall::AllowsMethod]
    } else {
        Seq::empty()
    };
    let reason = if was_not_connected(kind) {
        RetryReason::Connect
    } else if reply_was_lost(kind) {
        RetryReason::Read
    } else {
        RetryReason::Other
    };
    if reply_was_lost(kind) && !facts.allows_method {
        asked + seq![SendCall::RaiseTransport]
    } else if facts.granted {
        asked + seq![SendCall::CountFailure(reason), SendCall::SleepBackoff, SendCall::Attempt]
    } else {
        asked + seq![SendCall::CountFailure(reason), SendCall::RaiseTransport]
    }
}

/// The calls after a response: one that is not to be tried again is returned. A
/// granted try drains the response, waits as long as the response asks, where
/// that counts, or else as the policy says, and sends again. Without one the
/// response is returned, or drained and refused.
pub open spec fn calls_after_response(
    memory: SendMemory,
    has_retry_after: bool,
    facts: TryFacts,
) -> Seq<SendCall> {
    let reads = memory.respect_retry_after && has_retry_after;
    if !facts.is_retry {
        seq![SendCall::IsRetry, SendCall::BuildResponse]
    } else if !facts.granted && !memory.raise_on_status {
        seq![SendCall::IsRetry, SendCall::CountStatus, SendCall::BuildResponse]
    } else if !facts.granted {
        seq![
            SendCall::IsRetry,
            SendCall::CountStatus,
            SendCall::DrainLast,
            SendCall::RaiseTooMany,
        ]
    } else if !reads {
        seq![
            SendCall::IsRetry,
            SendCall::CountStatus,
            SendCall::Drain,
            SendCall::SleepBackoff,
            SendCall::Attempt,
        ]
    } else {
        seq![
            SendCall::IsRetry,
            SendCall::CountStatus,
            SendCall::Drain,
            SendCall::ReadRetryAfter,
            if facts.asks_to_wait {
                SendCall::SleepAsked
            } else {
                SendCall::SleepBackoff
            },
            SendCall::Attempt,
        ]
    }
}

/// Whether a request is sent again after a try: the policy has a try left, and
/// wants it for the response, or lets the method be repeated where a reply was
/// lost.
pub open spec fn leads_on(facts: TryFacts) -> bool {
    facts.granted && match facts.outcome {
        TryOutcome::Failed(kind) => reply_was_lost(kind) ==> facts.allows_method,
        TryOutcome::Responded { .. } => facts.is_retry,
    }
}

/// Each try takes its whole course: a failure whose request may be repeated is
/// counted, for its reason, and with a try left the request is sent again after
/// the wait; the error is raised only where the method may not be repeated or no
/// try is left. A response is returned, or tried again, or refused as the policy
/// says. The status of the response is remembered, and so are the settings.
pub proof fn law_a_try_takes_its_course(state: SendState, facts: TryFacts, limit: nat)
    requires
        state.call is Attempt,
        limit >= 6,
    ensures
        ({
            let (calls, end) = rest_of_try(state, facts, limit);
            &&& match facts.outcome {
                TryOutcome::Failed(kind) => calls == calls_after_failure(kind, facts),
                TryOutcome::Responded { status, has_retry_after } => {
                    &&& calls == calls_after_response(state.memory, has_retry_after, facts)
                    &&& end.memory.status == status
                },
            }
            &&& end.call == calls.last()
            &&& end.call is Attempt <==> leads_on(facts)
            &&& end.memory.respect_retry_after == state.memory.respect_retry_after
            &&& end.memory.raise_on_status == state.memory.raise_on_status
        }),
{
    reveal_with_fuel(rest_of_try, 7);
    let (calls, end) = rest_of_try(state, facts, limit);
    match facts.outcome {
        TryOutcome::Failed(kind) => {
            assert(calls =~= calls_after_failure(kind, facts));
        },
        TryOutcome::Responded { status, has_retry_after } => {
            assert(calls =~= calls_after_response(state.memory, has_retry_after, facts));
        },
    }
}

/// Where a send stands after a list of tries, of which none is made once it has
/// ended.
pub open spec fn after_tries(state: SendState, tries: Seq<TryFacts>) -> SendState
    decreases tries.len(),
{
    if tries.len() == 0 {
        state
    } else {
        let before = after_tries(state, tries.drop_last());
        if before.call is Attempt {
            rest_of_try(before, tries.last(), 6).1
        } else {
            before
        }
    }
}

/// A request is sent until a try does not lead to another one: as long as every
/// try leads on, the next thing is to send again; and the first that does not
/// ends the send, whatever would have come later.
pub proof fn law_sending_goes_on_until_it_is_over(state: SendState, tries: Seq<TryFacts>)
    requires
        state.call is Attempt,
    ensures
        after_tries(state, tries).call is Attempt <==> (forall|index: int|
            0 <= index < tries.len() ==> #[trigger] leads_on(tries[index])),
        !(after_tries(state, tries).call is Attempt) ==> send_is_over(
            after_tries(state, tries).call,
        ),
    decreases tries.len(),
{
    if tries.len() > 0 {
        let fewer = tries.drop_last();
        law_sending_goes_on_until_it_is_over(state, fewer);
        let before = after_tries(state, fewer);
        if before.call is Attempt {
            law_a_try_takes_its_course(before, tries.last(), 6);
            assert forall|index: int| 0 <= index < fewer.len() implies leads_on(
                #[trigger] tries[index],
            ) by {
                assert(leads_on(fewer[index]));
            }
            assert(leads_on(tries.last()) == leads_on(tries[tries.len() - 1]));
        } else {
            let index = choose|index: int|
                0 <= index < fewer.len() && !#[trigger] leads_on(fewer[index]);
            assert(!leads_on(tries[index]));
        }
    }
}

/// An error of Python's own code ends a send at any point.
pub proof fn law_errors_end_a_send(state: SendState)
    ensures
        next_send(state, SendEvent::Raised).call is RaiseCurrent,
{
}

/// The message for too many responses of a status.
pub fn too_many_message(status: u16) -> (text: String)
    ensures
        text@ == "too many "@ + decimal(status as nat) + " responses"@,
{
    let mut text = String::from_str("too many ");
    text.append(render_decimal(status as u64).as_str());
    text.append(" responses");
    text
}

/// The message for managers that changed after a send was taken over.
pub fn commitment_message(through_proxy: bool) -> (text: String)
    ensures
        text@ == (if through_proxy {
            "proxy manager state changed after native send commitment"@
        } else {
            "adapter pool state changed after native send commitment"@
        }),
{
    if through_proxy {
        String::from_str("proxy manager state changed after native send commitment")
    } else {
        String::from_str("adapter pool state changed after native send commitment")
    }
}

/// Why tries were exhausted.
#[derive(Clone, Copy, Debug, PartialEq, Eq, Structural)]
pub enum ExhaustedReason {
    /// `ConnectTimeoutError(message)`
    ConnectTimeout,
    /// `_ProxyError(message, ProtocolError(message))`
    Proxy,
    /// `_SSLError(message)`
    Tls,
}

/// The error that `urllib3` would have raised for a failure. `errno` is the
/// number of the error beneath it. Where `explicit` is set, each error names the
/// one beneath it as its cause; it is its context in any case.
#[derive(Clone, Copy, Debug, PartialEq, Eq, Structural)]
pub enum Surrogate {
    /// `LocationValueError(message)`
    Location,
    /// `ReadTimeoutError(pool, None, "Read timed out.")`
    ReadTimeout,
    /// `MaxRetryError` for a `NewConnectionError` for an `OSError`.
    NewConnection { errno: i32, explicit: bool },
    /// `MaxRetryError` for a `NewConnectionError` for a `gaierror`.
    UnresolvedConnection { errno: i32 },
    /// `MaxRetryError` for a `NameResolutionError` for a `gaierror`.
    NameResolution { errno: i32 },
    /// `MaxRetryError` for another reason.
    Exhausted { reason: ExhaustedReason, explicit: bool },
    /// `MaxRetryError` for a `ProtocolError("Connection aborted.", ..)` for an
    /// `OSError`, which is the context of both.
    Aborted { errno: i32, explicit: bool },
    /// `ProtocolError(message)`
    Protocol,
}

/// The number of a system's error, or a number that stands for none.
pub open spec fn errno_or(errno: Option<i32>, missing: i32) -> i32 {
    match errno {
        Some(errno) => errno,
        None => missing,
    }
}

/// The error that `urllib3` would have raised for a failure.
pub open spec fn surrogate_of(kind: ErrorKind, errno: Option<i32>, v2: bool) -> Surrogate {
    match kind {
        ErrorKind::InvalidUrl | ErrorKind::MissingSchema => Surrogate::Location,
        ErrorKind::ReadTimeout => Surrogate::ReadTimeout,
        ErrorKind::Connect => Surrogate::NewConnection { errno: errno_or(errno, 1), explicit: v2 },
        ErrorKind::Dns => if v2 {
            Surrogate::NameResolution { errno: errno_or(errno, (-2int) as i32) }
        } else {
            Surrogate::UnresolvedConnection { errno: errno_or(errno, (-2int) as i32) }
        },
        ErrorKind::ConnectTimeout => Surrogate::Exhausted {
            reason: ExhaustedReason::ConnectTimeout,
            explicit: v2,
        },
        ErrorKind::Proxy => Surrogate::Exhausted { reason: ExhaustedReason::Proxy, explicit: v2 },
        ErrorKind::Tls | ErrorKind::Handshake => Surrogate::Exhausted {
            reason: ExhaustedReason::Tls,
            explicit: v2,
        },
        ErrorKind::Send | ErrorKind::Connection => Surrogate::Aborted {
            errno: errno_or(errno, 1),
            explicit: v2,
        },
        _ => Surrogate::Protocol,
    }
}

/// The number of a system's error, or a number that stands for none.
fn system_error(errno: Option<i32>, missing: i32) -> (number: i32)
    ensures
        number == errno_or(errno, missing),
{
    match errno {
        Some(errno) => errno,
        None => missing,
    }
}

/// The error that `urllib3` would have raised for a failure.
pub fn canonical_adapter_surrogate(kind: ErrorKind, errno: Option<i32>, v2: bool) -> (surrogate:
    Surrogate)
    ensures
        surrogate == surrogate_of(kind, errno, v2),
{
    match kind {
        ErrorKind::InvalidUrl | ErrorKind::MissingSchema => Surrogate::Location,
        ErrorKind::ReadTimeout => Surrogate::ReadTimeout,
        ErrorKind::Connect => Surrogate::NewConnection {
            errno: system_error(errno, 1),
            explicit: v2,
        },
        ErrorKind::Dns => {
            let number: i32 = system_error(errno, -2);
            if v2 {
                Surrogate::NameResolution { errno: number }
            } else {
                Surrogate::UnresolvedConnection { errno: number }
            }
        },
        ErrorKind::ConnectTimeout => Surrogate::Exhausted {
            reason: ExhaustedReason::ConnectTimeout,
            explicit: v2,
        },
        ErrorKind::Proxy => Surrogate::Exhausted { reason: ExhaustedReason::Proxy, explicit: v2 },
        ErrorKind::Tls | ErrorKind::Handshake => Surrogate::Exhausted {
            reason: ExhaustedReason::Tls,
            explicit: v2,
        },
        ErrorKind::Send | ErrorKind::Connection => Surrogate::Aborted {
            errno: system_error(errno, 1),
            explicit: v2,
        },
        _ => Surrogate::Protocol,
    }
}

/// The text of an error about a connection that could not be made.
pub fn new_connection_message(source: &str) -> (text: String)
    ensures
        text@ == "Failed to establish a new connection: "@ + source@,
{
    String::from_str("Failed to establish a new connection: ").concat(source)
}

/// An error class that the adapter's `send` raises.
#[derive(Clone, Copy, Debug, PartialEq, Eq, Structural)]
pub enum RaisedClass {
    ConnectionError,
    ConnectTimeout,
    RetryError,
    ProxyError,
    SslError,
    ReadTimeout,
    InvalidHeader,
}

impl RaisedClass {
    /// The name under which `send` finds the class.
    pub open spec fn spelled(self) -> Seq<char> {
        match self {
            RaisedClass::ConnectionError => "ConnectionError"@,
            RaisedClass::ConnectTimeout => "ConnectTimeout"@,
            RaisedClass::RetryError => "RetryError"@,
            RaisedClass::ProxyError => "ProxyError"@,
            RaisedClass::SslError => "SSLError"@,
            RaisedClass::ReadTimeout => "ReadTimeout"@,
            RaisedClass::InvalidHeader => "InvalidHeader"@,
        }
    }

    /// The name under which `send` finds the class.
    pub fn name(&self) -> (name: &'static str)
        ensures
            name@ == self.spelled(),
    {
        match self {
            RaisedClass::ConnectionError => "ConnectionError",
            RaisedClass::ConnectTimeout => "ConnectTimeout",
            RaisedClass::RetryError => "RetryError",
            RaisedClass::ProxyError => "ProxyError",
            RaisedClass::SslError => "SSLError",
            RaisedClass::ReadTimeout => "ReadTimeout",
            RaisedClass::InvalidHeader => "InvalidHeader",
        }
    }
}

/// What the error handling of `send` asks or does next.
#[derive(Clone, Copy, Debug, PartialEq, Eq, Structural)]
pub enum HandlerCall {
    /// `except (ProtocolError, OSError)`
    CatchConnection,
    /// `except MaxRetryError`
    CatchMaxRetry,
    /// Is the reason a `ConnectTimeoutError`?
    ReasonConnectTimeout,
    /// Is the reason a `NewConnectionError`?
    ReasonNewConnection,
    /// Is the reason a `ResponseError`?
    ReasonResponse,
    /// Is the reason a `_ProxyError`?
    ReasonProxy,
    /// Is the reason an `_SSLError`?
    ReasonSsl,
    /// `except ClosedPoolError`
    CatchClosedPool,
    /// `except _ProxyError`
    CatchProxy,
    /// `except (_SSLError, _HTTPError)`
    CatchLast,
    /// Is the error an `_SSLError`?
    IsSsl,
    /// Is the error a `ReadTimeoutError`?
    IsReadTimeout,
    /// Is the error an `_InvalidHeader`?
    IsInvalidHeader,
    /// Raise this error in the context of the original, with the request or
    /// without.
    Raise { class: RaisedClass, with_request: bool },
    /// The original error goes on.
    RaiseOriginal,
    /// An error of the error handling goes on, in the context of the original.
    RaiseCurrent,
}

/// What the error handling of `send` was told.
#[derive(Clone, Copy, Debug, PartialEq, Eq, Structural)]
pub enum HandlerAnswer {
    Yes,
    No,
    Raised,
}

/// The error that is raised with the request.
pub open spec fn raised(class: RaisedClass) -> HandlerCall {
    HandlerCall::Raise { class, with_request: true }
}

/// What the error handling of `send` asks or does after an answer.
pub open spec fn next_handler(call: HandlerCall, answer: HandlerAnswer) -> HandlerCall {
    match (call, answer) {
        (HandlerCall::CatchConnection, HandlerAnswer::Yes) => raised(RaisedClass::ConnectionError),
        (HandlerCall::CatchConnection, HandlerAnswer::No) => HandlerCall::CatchMaxRetry,
        (HandlerCall::CatchMaxRetry, HandlerAnswer::Yes) => HandlerCall::ReasonConnectTimeout,
        (HandlerCall::CatchMaxRetry, HandlerAnswer::No) => HandlerCall::CatchClosedPool,
        (HandlerCall::ReasonConnectTimeout, HandlerAnswer::Yes) => HandlerCall::ReasonNewConnection,
        (HandlerCall::ReasonConnectTimeout, HandlerAnswer::No) => HandlerCall::ReasonResponse,
        (HandlerCall::ReasonNewConnection, HandlerAnswer::No) => raised(
            RaisedClass::ConnectTimeout,
        ),
        (HandlerCall::ReasonNewConnection, HandlerAnswer::Yes) => HandlerCall::ReasonResponse,
        (HandlerCall::ReasonResponse, HandlerAnswer::Yes) => raised(RaisedClass::RetryError),
        (HandlerCall::ReasonResponse, HandlerAnswer::No) => HandlerCall::ReasonProxy,
        (HandlerCall::ReasonProxy, HandlerAnswer::Yes) => raised(RaisedClass::ProxyError),
        (HandlerCall::ReasonProxy, HandlerAnswer::No) => HandlerCall::ReasonSsl,
        (HandlerCall::ReasonSsl, HandlerAnswer::Yes) => raised(RaisedClass::SslError),
        (HandlerCall::ReasonSsl, HandlerAnswer::No) => raised(RaisedClass::ConnectionError),
        (HandlerCall::CatchClosedPool, HandlerAnswer::Yes) => raised(RaisedClass::ConnectionError),
        (HandlerCall::CatchClosedPool, HandlerAnswer::No) => HandlerCall::CatchProxy,
        (HandlerCall::CatchProxy, HandlerAnswer::Yes) => HandlerCall::Raise {
            class: RaisedClass::ProxyError,
            with_request: false,
        },
        (HandlerCall::CatchProxy, HandlerAnswer::No) => HandlerCall::CatchLast,
        (HandlerCall::CatchLast, HandlerAnswer::Yes) => HandlerCall::IsSsl,
        (HandlerCall::CatchLast, HandlerAnswer::No) => HandlerCall::RaiseOriginal,
        (HandlerCall::IsSsl, HandlerAnswer::Yes) => raised(RaisedClass::SslError),
        (HandlerCall::IsSsl, HandlerAnswer::No) => HandlerCall::IsReadTimeout,
        (HandlerCall::IsReadTimeout, HandlerAnswer::Yes) => raised(RaisedClass::ReadTimeout),
        (HandlerCall::IsReadTimeout, HandlerAnswer::No) => HandlerCall::IsInvalidHeader,
        (HandlerCall::IsInvalidHeader, HandlerAnswer::Yes) => raised(RaisedClass::InvalidHeader),
        (HandlerCall::IsInvalidHeader, HandlerAnswer::No) => HandlerCall::RaiseOriginal,
        _ => HandlerCall::RaiseCurrent,
    }
}

/// Goes on with the error handling of `send`, which begins with
/// `CatchConnection`.
pub fn simulate_adapter_handlers(call: HandlerCall, answer: HandlerAnswer) -> (next: HandlerCall)
    ensures
        next == next_handler(call, answer),
{
    let (class, with_request) = match (call, answer) {
        (HandlerCall::CatchConnection, HandlerAnswer::Yes) => (RaisedClass::ConnectionError, true),
        (HandlerCall::CatchConnection, HandlerAnswer::No) => {
            return HandlerCall::CatchMaxRetry;
        },
        (HandlerCall::CatchMaxRetry, HandlerAnswer::Yes) => {
            return HandlerCall::ReasonConnectTimeout;
        },
        (HandlerCall::CatchMaxRetry, HandlerAnswer::No) => {
            return HandlerCall::CatchClosedPool;
        },
        (HandlerCall::ReasonConnectTimeout, HandlerAnswer::Yes) => {
            return HandlerCall::ReasonNewConnection;
        },
        (HandlerCall::ReasonConnectTimeout, HandlerAnswer::No) => {
            return HandlerCall::ReasonResponse;
        },
        (HandlerCall::ReasonNewConnection, HandlerAnswer::No) => (
            RaisedClass::ConnectTimeout,
            true,
        ),
        (HandlerCall::ReasonNewConnection, HandlerAnswer::Yes) => {
            return HandlerCall::ReasonResponse;
        },
        (HandlerCall::ReasonResponse, HandlerAnswer::Yes) => (RaisedClass::RetryError, true),
        (HandlerCall::ReasonResponse, HandlerAnswer::No) => {
            return HandlerCall::ReasonProxy;
        },
        (HandlerCall::ReasonProxy, HandlerAnswer::Yes) => (RaisedClass::ProxyError, true),
        (HandlerCall::ReasonProxy, HandlerAnswer::No) => {
            return HandlerCall::ReasonSsl;
        },
        (HandlerCall::ReasonSsl, HandlerAnswer::Yes) => (RaisedClass::SslError, true),
        (HandlerCall::ReasonSsl, HandlerAnswer::No) => (RaisedClass::ConnectionError, true),
        (HandlerCall::CatchClosedPool, HandlerAnswer::Yes) => (RaisedClass::ConnectionError, true),
        (HandlerCall::CatchClosedPool, HandlerAnswer::No) => {
            return HandlerCall::CatchProxy;
        },
        (HandlerCall::CatchProxy, HandlerAnswer::Yes) => (RaisedClass::ProxyError, false),
        (HandlerCall::CatchProxy, HandlerAnswer::No) => {
            return HandlerCall::CatchLast;
        },
        (HandlerCall::CatchLast, HandlerAnswer::Yes) => {
            return HandlerCall::IsSsl;
        },
        (HandlerCall::CatchLast, HandlerAnswer::No) => {
            return HandlerCall::RaiseOriginal;
        },
        (HandlerCall::IsSsl, HandlerAnswer::Yes) => (RaisedClass::SslError, true),
        (HandlerCall::IsSsl, HandlerAnswer::No) => {
            return HandlerCall::IsReadTimeout;
        },
        (HandlerCall::IsReadTimeout, HandlerAnswer::Yes) => (RaisedClass::ReadTimeout, true),
        (HandlerCall::IsReadTimeout, HandlerAnswer::No) => {
            return HandlerCall::IsInvalidHeader;
        },
        (HandlerCall::IsInvalidHeader, HandlerAnswer::Yes) => (RaisedClass::InvalidHeader, true),
        (HandlerCall::IsInvalidHeader, HandlerAnswer::No) => {
            return HandlerCall::RaiseOriginal;
        },
        _ => {
            return HandlerCall::RaiseCurrent;
        },
    };
    HandlerCall::Raise { class, with_request }
}

/// Whether an error's class is caught by a clause that names one class or two.
pub open spec fn clause_catches(heap: Heap, error_class: usize, first: usize, second: Option<usize>) -> Check {
    match second {
        None => if is_exception_class(heap, first) {
            Ok(derives_from(heap, error_class, first))
        } else {
            Err(Failure::Kind)
        },
        Some(second) => if is_exception_class(heap, first) && is_exception_class(heap, second) {
            Ok(derives_from(heap, error_class, first) || derives_from(heap, error_class, second))
        } else {
            Err(Failure::Kind)
        },
    }
}

/// What a name of `send` stands for now.
pub open spec fn live_name(heap: Heap, globals: usize, builtins: usize, name: Seq<char>) -> Option<usize> {
    match heap.entry_of(globals, name) {
        Some(value) => Some(value),
        None => heap.entry_of(builtins, name),
    }
}

/// The names that a clause of the error handling of `send` gives.
pub open spec fn clause_names(call: HandlerCall) -> Option<(Seq<char>, Option<Seq<char>>)> {
    match call {
        HandlerCall::CatchConnection => Some(("ProtocolError"@, Some("OSError"@))),
        HandlerCall::CatchMaxRetry => Some(("MaxRetryError"@, None)),
        HandlerCall::CatchClosedPool => Some(("ClosedPoolError"@, None)),
        HandlerCall::CatchProxy => Some(("_ProxyError"@, None)),
        HandlerCall::CatchLast => Some(("_SSLError"@, Some("_HTTPError"@))),
        _ => None,
    }
}

/// Whether a clause of the error handling of `send` catches an error.
pub open spec fn caught(
    heap: Heap,
    globals: usize,
    builtins: usize,
    error_class: usize,
    call: HandlerCall,
) -> Check {
    match clause_names(call) {
        None => Err(Failure::Kind),
        Some((first, second)) => match live_name(heap, globals, builtins, first) {
            None => Err(Failure::Name),
            Some(first) => match second {
                None => clause_catches(heap, error_class, first, None),
                Some(second) => match live_name(heap, globals, builtins, second) {
                    None => Err(Failure::Name),
                    Some(second) => clause_catches(heap, error_class, first, Some(second)),
                },
            },
        },
    }
}

/// Whether a clause of the error handling of `send` catches an error.
pub fn handler_catches(
    heap: &Heap,
    globals: usize,
    builtins: usize,
    error_class: usize,
    call: HandlerCall,
) -> (check: Check)
    ensures
        check == caught(*heap, globals, builtins, error_class, call),
{
    let (first_name, second_name): (&'static str, Option<&'static str>) = match call {
        HandlerCall::CatchConnection => ("ProtocolError", Some("OSError")),
        HandlerCall::CatchMaxRetry => ("MaxRetryError", None),
        HandlerCall::CatchClosedPool => ("ClosedPoolError", None),
        HandlerCall::CatchProxy => ("_ProxyError", None),
        HandlerCall::CatchLast => ("_SSLError", Some("_HTTPError")),
        _ => {
            return Err(Failure::Kind);
        },
    };
    let first = match live_adapter_global(heap, globals, builtins, first_name) {
        Some(first) => first,
        None => {
            return Err(Failure::Name);
        },
    };
    match second_name {
        None => if validate_exception_class(heap, first) {
            Ok(is_subclass(heap, error_class, first))
        } else {
            Err(Failure::Kind)
        },
        Some(second_name) => match live_adapter_global(heap, globals, builtins, second_name) {
            None => Err(Failure::Name),
            Some(second) => if validate_exception_class(heap, first) && validate_exception_class(
                heap,
                second,
            ) {
                Ok(
                    is_subclass(heap, error_class, first) || is_subclass(
                        heap,
                        error_class,
                        second,
                    ),
                )
            } else {
                Err(Failure::Kind)
            },
        },
    }
}

/// What Python would answer the error handling of `send`.
#[derive(Clone, Copy, Debug, PartialEq, Eq, Structural)]
pub struct HandlerFacts {
    pub connection: bool,
    pub max_retry: bool,
    pub reason_connect_timeout: bool,
    pub reason_new_connection: bool,
    pub reason_response: bool,
    pub reason_proxy: bool,
    pub reason_ssl: bool,
    pub closed_pool: bool,
    pub proxy: bool,
    pub last: bool,
    pub ssl: bool,
    pub read_timeout: bool,
    pub invalid_header: bool,
}

/// The answer to a question.
pub open spec fn handler_answer(facts: HandlerFacts, call: HandlerCall) -> HandlerAnswer {
    let yes = match call {
        HandlerCall::CatchConnection => facts.connection,
        HandlerCall::CatchMaxRetry => facts.max_retry,
        HandlerCall::ReasonConnectTimeout => facts.reason_connect_timeout,
        HandlerCall::ReasonNewConnection => facts.reason_new_connection,
        HandlerCall::ReasonResponse => facts.reason_response,
        HandlerCall::ReasonProxy => facts.reason_proxy,
        HandlerCall::ReasonSsl => facts.reason_ssl,
        HandlerCall::CatchClosedPool => facts.closed_pool,
        HandlerCall::CatchProxy => facts.proxy,
        HandlerCall::CatchLast => facts.last,
        HandlerCall::IsSsl => facts.ssl,
        HandlerCall::IsReadTimeout => facts.read_timeout,
        HandlerCall::IsInvalidHeader => facts.invalid_header,
        _ => false,
    };
    if yes {
        HandlerAnswer::Yes
    } else {
        HandlerAnswer::No
    }
}

/// Where the error handling of `send` ends, with at most so many questions.
pub open spec fn handled(facts: HandlerFacts, call: HandlerCall, limit: nat) -> HandlerCall
    decreases limit,
{
    match call {
        HandlerCall::Raise { .. } => call,
        HandlerCall::RaiseOriginal => call,
        HandlerCall::RaiseCurrent => call,
        _ => if limit == 0 {
            HandlerCall::RaiseCurrent
        } else {
            handled(facts, next_handler(call, handler_answer(facts, call)), (limit - 1) as nat)
        },
    }
}

/// The error for exhausted tries, by their reason.
pub open spec fn exhausted_error(facts: HandlerFacts) -> RaisedClass {
    if facts.reason_connect_timeout && !facts.reason_new_connection {
        RaisedClass::ConnectTimeout
    } else if facts.reason_response {
        RaisedClass::RetryError
    } else if facts.reason_proxy {
        RaisedClass::ProxyError
    } else if facts.reason_ssl {
        RaisedClass::SslError
    } else {
        RaisedClass::ConnectionError
    }
}

/// The error that the error handling of `send` raises.
pub open spec fn expected_error(facts: HandlerFacts) -> HandlerCall {
    if facts.connection {
        raised(RaisedClass::ConnectionError)
    } else if facts.max_retry {
        raised(exhausted_error(facts))
    } else if facts.closed_pool {
        raised(RaisedClass::ConnectionError)
    } else if facts.proxy {
        HandlerCall::Raise { class: RaisedClass::ProxyError, with_request: false }
    } else if facts.last && facts.ssl {
        raised(RaisedClass::SslError)
    } else if facts.last && facts.read_timeout {
        raised(RaisedClass::ReadTimeout)
    } else if facts.last && facts.invalid_header {
        raised(RaisedClass::InvalidHeader)
    } else {
        HandlerCall::RaiseOriginal
    }
}

/// The error handling of `send` raises the error that the facts call for. It
/// asks at most eight questions.
pub proof fn law_handlers_follow_the_facts(facts: HandlerFacts, limit: nat)
    requires
        limit >= 8,
    ensures
        handled(facts, HandlerCall::CatchConnection, limit) == expected_error(facts),
{
    reveal_with_fuel(handled, 9);
    if facts.connection {
    } else if facts.max_retry {
        if facts.reason_connect_timeout {
        } else {
        }
    } else if facts.closed_pool {
    } else if facts.proxy {
    } else if facts.last {
    }
}

/// Whether a surrogate names causes and carries a number as this version does.
pub open spec fn fits_the_version(surrogate: Surrogate, v2: bool) -> bool {
    match surrogate {
        Surrogate::NewConnection { explicit, .. } => explicit == v2,
        Surrogate::Exhausted { explicit, .. } => explicit == v2,
        Surrogate::Aborted { explicit, .. } => explicit == v2,
        Surrogate::NameResolution { .. } => v2,
        Surrogate::UnresolvedConnection { .. } => !v2,
        _ => true,
    }
}

/// The number that a surrogate carries, where it carries one.
pub open spec fn carried_number(surrogate: Surrogate) -> Option<i32> {
    match surrogate {
        Surrogate::NewConnection { errno, .. } => Some(errno),
        Surrogate::UnresolvedConnection { errno } => Some(errno),
        Surrogate::NameResolution { errno } => Some(errno),
        Surrogate::Aborted { errno, .. } => Some(errno),
        _ => None,
    }
}

/// A failure becomes the error that `urllib3` raises for it, in both versions: a
/// URL that is none, a timeout while reading, a connection that was not made, a
/// name that was not found, tries that ran out, or a connection that broke. Only
/// version two names causes and tells names apart that were not found. The
/// system's number of the error is kept.
pub proof fn law_surrogates_tell_the_failure(kind: ErrorKind, errno: Option<i32>, v2: bool)
    ensures
        ({
            let surrogate = surrogate_of(kind, errno, v2);
            &&& fits_the_version(surrogate, v2)
            &&& surrogate is Location <==> kind is InvalidUrl || kind is MissingSchema
            &&& surrogate is ReadTimeout <==> kind is ReadTimeout
            &&& surrogate is NewConnection <==> kind is Connect
            &&& surrogate is NameResolution || surrogate is UnresolvedConnection <==> kind is Dns
            &&& surrogate is Aborted <==> kind is Send || kind is Connection
            &&& surrogate matches Surrogate::Exhausted { reason, .. } ==> {
                &&& reason is ConnectTimeout <==> kind is ConnectTimeout
                &&& reason is Proxy <==> kind is Proxy
                &&& reason is Tls <==> kind is Tls || kind is Handshake
            }
            &&& surrogate is Exhausted <==> kind is ConnectTimeout || kind is Proxy || kind is Tls
                || kind is Handshake
            &&& carried_number(surrogate) is Some <==> kind is Connect || kind is Dns || kind
                is Send || kind is Connection
            &&& errno is Some && carried_number(surrogate) is Some ==> carried_number(surrogate)
                == errno
            &&& errno is None && kind is Dns ==> carried_number(surrogate) == Some(
                (-2int) as i32,
            )
            &&& errno is None && !(kind is Dns) && carried_number(surrogate) is Some
                ==> carried_number(surrogate) == Some(1i32)
        }),
{
}

/// The clauses of the error handling of `send` catch what they name: an error is
/// caught where its class derives from one of the classes that the clause's names
/// stand for. A name of the module comes before a builtin.
pub proof fn law_clauses_catch_what_they_name(
    heap: Heap,
    globals: usize,
    builtins: usize,
    error_class: usize,
    first: usize,
    second: usize,
)
    requires
        is_exception_class(heap, first),
        is_exception_class(heap, second),
    ensures
        heap.entry_of(globals, "ProtocolError"@) == Some(first) && heap.entry_of(
            globals,
            "OSError"@,
        ) is None && heap.entry_of(builtins, "OSError"@) == Some(second) ==> caught(
            heap,
            globals,
            builtins,
            error_class,
            HandlerCall::CatchConnection,
        ) == Ok::<bool, Failure>(
            heap.mro_of(error_class).contains(first) || heap.mro_of(error_class).contains(second),
        ),
        heap.entry_of(globals, "MaxRetryError"@) == Some(first) ==> caught(
            heap,
            globals,
            builtins,
            error_class,
            HandlerCall::CatchMaxRetry,
        ) == Ok::<bool, Failure>(heap.mro_of(error_class).contains(first)),
        heap.entry_of(globals, "ClosedPoolError"@) == Some(first) ==> caught(
            heap,
            globals,
            builtins,
            error_class,
            HandlerCall::CatchClosedPool,
        ) == Ok::<bool, Failure>(heap.mro_of(error_class).contains(first)),
        heap.entry_of(globals, "_ProxyError"@) == Some(first) ==> caught(
            heap,
            globals,
            builtins,
            error_class,
            HandlerCall::CatchProxy,
        ) == Ok::<bool, Failure>(heap.mro_of(error_class).contains(first)),
        heap.entry_of(globals, "_SSLError"@) == Some(first) && heap.entry_of(
            globals,
            "_HTTPError"@,
        ) == Some(second) ==> caught(
            heap,
            globals,
            builtins,
            error_class,
            HandlerCall::CatchLast,
        ) == Ok::<bool, Failure>(
            heap.mro_of(error_class).contains(first) || heap.mro_of(error_class).contains(second),
        ),
        heap.entry_of(globals, "MaxRetryError"@) is None && heap.entry_of(
            builtins,
            "MaxRetryError"@,
        ) is None ==> caught(
            heap,
            globals,
            builtins,
            error_class,
            HandlerCall::CatchMaxRetry,
        ) == Err::<bool, Failure>(Failure::Name),
{
}

/// Each class that is raised has its own name.
pub proof fn law_names_of_raised_class()
    ensures
        RaisedClass::ConnectionError.spelled() == "ConnectionError"@,
        RaisedClass::ConnectTimeout.spelled() == "ConnectTimeout"@,
        RaisedClass::RetryError.spelled() == "RetryError"@,
        RaisedClass::ProxyError.spelled() == "ProxyError"@,
        RaisedClass::SslError.spelled() == "SSLError"@,
        RaisedClass::ReadTimeout.spelled() == "ReadTimeout"@,
        RaisedClass::InvalidHeader.spelled() == "InvalidHeader"@,
{
}

/// A send begins with an attempt, with the settings that it is given, and with no
/// response seen yet.
pub proof fn law_a_send_begins_afresh(respect_retry_after: bool, raise_on_status: bool)
    ensures
        ({
            let state = SendState::beginning(respect_retry_after, raise_on_status);
            &&& state.call is Attempt
            &&& state.memory.respect_retry_after == respect_retry_after
            &&& state.memory.raise_on_status == raise_on_status
            &&& !state.memory.has_retry_after
            &&& state.memory.status == 0
            &&& state.memory.reason is Other
        }),
{
}

/// A clause can be tried exactly where each name in it stands for a class of
/// exceptions, and it catches what derives from one of them.
pub proof fn law_clauses_need_classes(
    heap: Heap,
    error_class: usize,
    first: usize,
    second: Option<usize>,
)
    ensures
        clause_catches(heap, error_class, first, second) is Ok <==> is_exception_class(heap, first)
            && (second matches Some(other) ==> is_exception_class(heap, other)),
        clause_catches(heap, error_class, first, second) is Err ==> clause_catches(
            heap,
            error_class,
            first,
            second,
        ) == Err::<bool, Failure>(Failure::Kind),
        clause_catches(heap, error_class, first, second) matches Ok(caught) ==> (caught
            <==> derives_from(heap, error_class, first) || (second matches Some(other)
            && derives_from(heap, error_class, other))),
{
}

} // verus!
