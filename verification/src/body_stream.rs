//! A Python body as a stream of chunks: the native side asks for a chunk, the
//! Python thread answers.

use vstd::prelude::*;
use vstd::string::StringExecFns;

use bytes::Bytes;

use crate::bridge::{store_handler_error, BridgeClosed, WorkerPayload};

verus! {

/// A shared byte string of the `bytes` crate.
#[verifier::external_type_specification]
#[verifier::external_body]
pub struct ExBytes(bytes::Bytes);

/// The bytes that a `bytes::Bytes` holds.
pub uninterp spec fn contents(bytes: Bytes) -> Seq<u8>;

/// `<bytes::Bytes as From<Vec<u8>>>::from`: the result holds the bytes of the
/// vector.
#[verifier::external_body]
fn bytes_from_vec(chunk: Vec<u8>) -> (bytes: Bytes)
    ensures
        contents(bytes) == chunk@,
{
    Bytes::from(chunk)
}

/// `bytes::Bytes::new`: the result holds no byte.
#[verifier::external_body]
fn bytes_empty() -> (bytes: Bytes)
    ensures
        contents(bytes) == Seq::<u8>::empty(),
{
    Bytes::new()
}

/// `bytes::Bytes::is_empty`: whether no byte is held.
#[verifier::external_body]
fn bytes_is_empty(bytes: &Bytes) -> (empty: bool)
    ensures
        empty == (contents(*bytes).len() == 0),
{
    bytes.is_empty()
}

/// `to_vec` on the slice that `<bytes::Bytes as Deref>::deref` gives: the
/// vector holds the bytes.
#[verifier::external_body]
fn bytes_to_vec(bytes: &Bytes) -> (chunk: Vec<u8>)
    ensures
        chunk@ == contents(*bytes),
{
    bytes.to_vec()
}

/// The bytes that one read asks for.
pub const BODY_BLOCK_SIZE: usize = 4;

/// What the native side asks of the Python thread.
#[derive(Clone, Copy, Debug, PartialEq, Eq, Structural)]
pub enum BodyAction {
    /// Read that many bytes.
    Read { size: usize },
    /// Take the next chunk.
    Next,
}

/// What the Python thread answers.
#[derive(Debug)]
pub enum BodyReply {
    Chunk(Vec<u8>),
    /// A chunk without bytes.
    Skip,
    End,
    /// The handler met an error, which it keeps.
    Failed,
}

impl WorkerPayload for BodyAction {

}

impl WorkerPayload for BodyReply {

}

/// How chunks are asked for.
#[derive(Clone, Copy, Debug, PartialEq, Eq, Structural)]
pub enum AdapterMode {
    Read,
    Next,
}

/// Whether an answer is awaited.
#[derive(Clone, Copy, Debug, PartialEq, Eq, Structural)]
pub enum AdapterState {
    Idle,
    Waiting,
    Done,
}

/// Why a stream ended early.
#[derive(Clone, Copy, Debug, PartialEq, Eq, Structural)]
pub enum AdapterFailure {
    Absent,
    Handler,
    ActionReceiver,
    ReplySender,
}

impl AdapterFailure {
    /// The number that stands for the failure.
    pub open spec fn raw(self) -> u8 {
        match self {
            AdapterFailure::Absent => 0,
            AdapterFailure::Handler => 1,
            AdapterFailure::ActionReceiver => 2,
            AdapterFailure::ReplySender => 3,
        }
    }

    /// The number that stands for the failure.
    pub fn as_raw(&self) -> (value: u8)
        ensures
            value == self.raw(),
    {
        match self {
            AdapterFailure::Absent => 0,
            AdapterFailure::Handler => 1,
            AdapterFailure::ActionReceiver => 2,
            AdapterFailure::ReplySender => 3,
        }
    }

    /// The failure that a number stands for; any other number stands for none.
    pub fn from_raw(value: u8) -> (failure: Self)
        ensures
            value <= 3 ==> failure.raw() == value,
            value > 3 ==> failure == AdapterFailure::Absent,
    {
        if value == 1 {
            AdapterFailure::Handler
        } else if value == 2 {
            AdapterFailure::ActionReceiver
        } else if value == 3 {
            AdapterFailure::ReplySender
        } else {
            AdapterFailure::Absent
        }
    }
}

/// What a stream has done so far, counted modulo 256.
#[derive(Clone, Copy, Debug, PartialEq, Eq, Structural)]
pub struct LifecycleCounters {
    pub queued_actions: u8,
    pub replies_observed: u8,
}

/// The native side of the stream.
#[derive(Clone, Copy, Debug, PartialEq, Eq, Structural)]
pub struct PythonBodyAdapter {
    pub mode: AdapterMode,
    pub state: AdapterState,
    pub size_hint: Option<u64>,
    pub failure: AdapterFailure,
    pub counters: Option<LifecycleCounters>,
}

/// What has to happen before the stream can go on.
#[derive(Clone, Copy, Debug, PartialEq, Eq, Structural)]
pub enum AdapterStep {
    /// The action is to be queued.
    Enqueue(BodyAction),
    /// The answer is to be awaited.
    Await,
    /// Nothing: the stream has ended.
    Finished,
}

/// What happened to a queued action.
#[derive(Debug)]
pub enum AdapterEvent {
    /// It is in the queue.
    Queued,
    /// It was answered.
    Reply(BodyReply),
    /// The bridge is closed.
    Closed(BridgeClosed),
}

/// What a poll of the stream gives.
pub enum AdapterPoll {
    Pending,
    Item(Bytes),
    Failed,
    End,
}

/// One more, modulo 256.
pub open spec fn counted(count: u8) -> u8 {
    if count == 255 {
        0
    } else {
        (count + 1) as u8
    }
}

impl PythonBodyAdapter {
    /// A stream that has not asked for anything yet.
    pub fn new(mode: AdapterMode, size_hint: Option<u64>) -> (adapter: Self)
        ensures
            adapter.mode == mode,
            adapter.state == AdapterState::Idle,
            adapter.size_hint == size_hint,
            adapter.failure == AdapterFailure::Absent,
            adapter.counters is None,
    {
        PythonBodyAdapter {
            mode,
            state: AdapterState::Idle,
            size_hint,
            failure: AdapterFailure::Absent,
            counters: None,
        }
    }

    /// The same stream, with its actions and answers counted from zero.
    pub fn with_lifecycle_counters(self) -> (adapter: Self)
        ensures
            adapter == (PythonBodyAdapter {
                counters: Some(LifecycleCounters { queued_actions: 0, replies_observed: 0 }),
                ..self
            }),
    {
        let mut adapter = self;
        adapter.counters = Some(LifecycleCounters { queued_actions: 0, replies_observed: 0 });
        adapter
    }

    /// The number of bytes to come, where it is known.
    pub fn size_hint(&self) -> (hint: Option<u64>)
        ensures
            hint == self.size_hint,
    {
        self.size_hint
    }

    /// The action that the mode asks for.
    pub open spec fn wanted(self) -> BodyAction {
        match self.mode {
            AdapterMode::Read => BodyAction::Read { size: BODY_BLOCK_SIZE },
            AdapterMode::Next => BodyAction::Next,
        }
    }

    /// The stream after one more action was queued.
    pub open spec fn queued(self) -> Self {
        PythonBodyAdapter {
            counters: match self.counters {
                Some(counters) => Some(
                    LifecycleCounters {
                        queued_actions: counted(counters.queued_actions),
                        ..counters
                    },
                ),
                None => None,
            },
            ..self
        }
    }

    /// The stream after one more answer was seen.
    pub open spec fn answered(self) -> Self {
        PythonBodyAdapter {
            counters: match self.counters {
                Some(counters) => Some(
                    LifecycleCounters {
                        replies_observed: counted(counters.replies_observed),
                        ..counters
                    },
                ),
                None => None,
            },
            ..self
        }
    }

    /// The stream after a failure: it has ended, and the first failure stays.
    pub open spec fn failed(self, failure: AdapterFailure) -> Self {
        PythonBodyAdapter {
            state: AdapterState::Done,
            failure: if self.failure is Absent {
                failure
            } else {
                self.failure
            },
            ..self
        }
    }

    /// The stream after an event. A stream that has ended stays as it is.
    pub open spec fn after(self, event: AdapterEvent) -> Self {
        if self.state is Done {
            self
        } else {
            self.answered_with(event)
        }
    }

    /// A stream that has not ended after an event.
    pub open spec fn answered_with(self, event: AdapterEvent) -> Self {
        match event {
            AdapterEvent::Queued => self.queued(),
            AdapterEvent::Reply(BodyReply::Chunk(_)) => PythonBodyAdapter {
                state: AdapterState::Idle,
                ..self.answered()
            },
            AdapterEvent::Reply(BodyReply::Skip) => PythonBodyAdapter {
                state: AdapterState::Idle,
                ..self.answered()
            },
            AdapterEvent::Reply(BodyReply::End) => PythonBodyAdapter {
                state: AdapterState::Done,
                ..self.answered()
            },
            AdapterEvent::Reply(BodyReply::Failed) => self.answered().failed(
                AdapterFailure::Handler,
            ),
            AdapterEvent::Closed(BridgeClosed::ActionReceiver) => self.failed(
                AdapterFailure::ActionReceiver,
            ),
            AdapterEvent::Closed(BridgeClosed::ReplySender) => self.failed(
                AdapterFailure::ReplySender,
            ),
        }
    }

    /// Begins a poll. An idle stream asks for its next chunk.
    pub fn begin_action(&mut self) -> (step: AdapterStep)
        ensures
            old(self).state is Idle ==> *final(self) == (PythonBodyAdapter {
                state: AdapterState::Waiting,
                ..*old(self)
            }) && step == AdapterStep::Enqueue(old(self).wanted()),
            old(self).state is Waiting ==> *final(self) == *old(self) && step == AdapterStep::Await,
            old(self).state is Done ==> *final(self) == *old(self) && step == AdapterStep::Finished,
    {
        match self.state {
            AdapterState::Idle => {
                self.state = AdapterState::Waiting;
                match self.mode {
                    AdapterMode::Read => AdapterStep::Enqueue(
                        BodyAction::Read { size: BODY_BLOCK_SIZE },
                    ),
                    AdapterMode::Next => AdapterStep::Enqueue(BodyAction::Next),
                }
            },
            AdapterState::Waiting => AdapterStep::Await,
            AdapterState::Done => AdapterStep::Finished,
        }
    }

    /// Counts an answer.
    fn mark_reply_observed(&mut self)
        ensures
            *final(self) == old(self).answered(),
    {
        match self.counters {
            Some(counters) => {
                self.counters = Some(
                    LifecycleCounters {
                        queued_actions: counters.queued_actions,
                        replies_observed: counters.replies_observed.wrapping_add(1),
                    },
                );
            },
            None => {},
        }
    }

    /// Ends the stream early.
    fn fail(&mut self, failure: AdapterFailure)
        ensures
            *final(self) == old(self).failed(failure),
    {
        match self.failure {
            AdapterFailure::Absent => {
                self.failure = failure;
            },
            _ => {},
        }
        self.state = AdapterState::Done;
    }

    /// Goes on after an event on the awaited action.
    pub fn poll_next(&mut self, event: AdapterEvent) -> (poll: AdapterPoll)
        ensures
            *final(self) == old(self).after(event),
            old(self).state is Done ==> poll is End,
            !(old(self).state is Done) ==> match event {
                AdapterEvent::Queued => poll is Pending,
                AdapterEvent::Reply(BodyReply::Chunk(chunk)) => poll matches AdapterPoll::Item(
                    bytes,
                ) && contents(bytes) == chunk@,
                AdapterEvent::Reply(BodyReply::Skip) => poll matches AdapterPoll::Item(bytes)
                    && contents(bytes) == Seq::<u8>::empty(),
                AdapterEvent::Reply(BodyReply::End) => poll is End,
                AdapterEvent::Reply(BodyReply::Failed) => poll is Failed,
                AdapterEvent::Closed(_) => poll is Failed,
            },
    {
        match self.state {
            AdapterState::Done => {
                return AdapterPoll::End;
            },
            _ => {},
        }
        match event {
            AdapterEvent::Queued => {
                match self.counters {
                    Some(counters) => {
                        self.counters = Some(
                            LifecycleCounters {
                                queued_actions: counters.queued_actions.wrapping_add(1),
                                replies_observed: counters.replies_observed,
                            },
                        );
                    },
                    None => {},
                }
                AdapterPoll::Pending
            },
            AdapterEvent::Reply(BodyReply::Chunk(chunk)) => {
                self.mark_reply_observed();
                self.state = AdapterState::Idle;
                AdapterPoll::Item(bytes_from_vec(chunk))
            },
            AdapterEvent::Reply(BodyReply::Skip) => {
                self.mark_reply_observed();
                self.state = AdapterState::Idle;
                AdapterPoll::Item(bytes_empty())
            },
            AdapterEvent::Reply(BodyReply::End) => {
                self.mark_reply_observed();
                self.state = AdapterState::Done;
                AdapterPoll::End
            },
            AdapterEvent::Reply(BodyReply::Failed) => {
                self.mark_reply_observed();
                self.fail(AdapterFailure::Handler);
                AdapterPoll::Failed
            },
            AdapterEvent::Closed(BridgeClosed::ActionReceiver) => {
                self.fail(AdapterFailure::ActionReceiver);
                AdapterPoll::Failed
            },
            AdapterEvent::Closed(BridgeClosed::ReplySender) => {
                self.fail(AdapterFailure::ReplySender);
                AdapterPoll::Failed
            },
        }
    }
}

/// Whether an event ends a stream with an error.
pub open spec fn is_failure(event: AdapterEvent) -> bool {
    event is Closed || event matches AdapterEvent::Reply(BodyReply::Failed)
}

/// After a failure the stream is at its end, and says which failure it was.
pub proof fn law_failure_ends_the_stream(adapter: PythonBodyAdapter, event: AdapterEvent)
    requires
        adapter.state is Waiting,
        is_failure(event),
    ensures
        adapter.after(event).state is Done,
        !(adapter.after(event).failure is Absent),
{
}

/// The first failure of a stream stays, whatever follows.
pub proof fn law_first_failure_stays(adapter: PythonBodyAdapter, event: AdapterEvent)
    requires
        !(adapter.failure is Absent),
    ensures
        adapter.after(event).failure == adapter.failure,
{
}

/// A stream whose every answer is a chunk, a skip or the end does not fail.
pub proof fn law_answers_do_not_fail(adapter: PythonBodyAdapter, event: AdapterEvent)
    requires
        !is_failure(event),
    ensures
        adapter.after(event).failure == adapter.failure,
{
}

/// The chunks that were taken out of a stream, up to a limit.
pub struct Collected {
    pub chunks: Vec<Vec<u8>>,
    pub limit: usize,
}

impl Collected {
    /// Nothing yet.
    pub fn new(limit: usize) -> (collected: Self)
        ensures
            collected.chunks@.len() == 0,
            collected.limit == limit,
    {
        Collected { chunks: Vec::new(), limit }
    }

    /// Whether another chunk is wanted.
    pub fn wants_more(&self) -> (more: bool)
        ensures
            more == (self.chunks@.len() < self.limit),
    {
        self.chunks.len() < self.limit
    }

    /// Takes what a poll gave, and tells whether the stream goes on. Chunks
    /// without bytes are left out.
    pub fn take(&mut self, poll: AdapterPoll) -> (more: bool)
        ensures
            final(self).limit == old(self).limit,
            match poll {
                AdapterPoll::Item(bytes) => {
                    &&& more
                    &&& contents(bytes).len() == 0 ==> final(self).chunks@ == old(self).chunks@
                    &&& contents(bytes).len() > 0 ==> {
                        &&& final(self).chunks@.len() == old(self).chunks@.len() + 1
                        &&& final(self).chunks@.drop_last() == old(self).chunks@
                        &&& final(self).chunks@.last()@ == contents(bytes)
                    }
                },
                AdapterPoll::Pending => more && final(self).chunks@ == old(self).chunks@,
                _ => !more && final(self).chunks@ == old(self).chunks@,
            },
    {
        match poll {
            AdapterPoll::Item(bytes) => {
                if !bytes_is_empty(&bytes) {
                    let ghost before = self.chunks@;
                    self.chunks.push(bytes_to_vec(&bytes));
                    assert(self.chunks@.drop_last() =~= before);
                }
                true
            },
            AdapterPoll::Pending => true,
            AdapterPoll::Failed => false,
            AdapterPoll::End => false,
        }
    }
}

/// Where the Python thread takes chunks from.
#[derive(Clone, Copy, Debug, PartialEq, Eq, Structural)]
pub enum OriginBodySource {
    /// The body's `read`.
    Read,
    /// An iterator over the body.
    Iterator,
    /// The body itself, once; `cached` where it was encoded already.
    Once { pending: bool, cached: bool },
}

/// What the Python thread does for an action.
#[derive(Clone, Copy, Debug, PartialEq, Eq, Structural)]
pub enum OriginCall {
    /// Calls `read` with that size.
    Read(usize),
    /// Takes the iterator's next item.
    Next,
    /// Takes the encoded body.
    TakeCached,
    /// Takes the body.
    TakeBody,
    /// Answers that the body has ended.
    AnswerEnd,
    /// Refuses: the action does not fit the source.
    Refuse,
}

/// What the Python thread does for an action on a source.
pub open spec fn call_for(source: OriginBodySource, action: BodyAction) -> OriginCall {
    match (action, source) {
        (BodyAction::Read { size }, OriginBodySource::Read) => OriginCall::Read(size),
        (BodyAction::Next, OriginBodySource::Iterator) => OriginCall::Next,
        (BodyAction::Next, OriginBodySource::Once { pending, cached }) => if !pending {
            OriginCall::AnswerEnd
        } else if cached {
            OriginCall::TakeCached
        } else {
            OriginCall::TakeBody
        },
        _ => OriginCall::Refuse,
    }
}

/// The source after an action.
pub open spec fn source_after(source: OriginBodySource, action: BodyAction) -> OriginBodySource {
    match (action, source) {
        (BodyAction::Next, OriginBodySource::Once { pending, cached }) => OriginBodySource::Once {
            pending: false,
            cached: cached && !pending,
        },
        _ => source,
    }
}

/// Finds what the Python thread does for an action.
pub fn body_action(source: &mut OriginBodySource, action: BodyAction) -> (call: OriginCall)
    ensures
        call == call_for(*old(source), action),
        *final(source) == source_after(*old(source), action),
{
    match (action, *source) {
        (BodyAction::Read { size }, OriginBodySource::Read) => OriginCall::Read(size),
        (BodyAction::Next, OriginBodySource::Iterator) => OriginCall::Next,
        (BodyAction::Next, OriginBodySource::Once { pending, cached }) => {
            *source = OriginBodySource::Once { pending: false, cached: cached && !pending };
            if !pending {
                OriginCall::AnswerEnd
            } else if cached {
                OriginCall::TakeCached
            } else {
                OriginCall::TakeBody
            }
        },
        _ => OriginCall::Refuse,
    }
}

/// The message of a refused action.
pub fn refusal_message() -> (text: String)
    ensures
        text@ == "Python body adapter received an unexpected action"@,
{
    String::from_str("Python body adapter received an unexpected action")
}

/// What a call on the Python thread gave.
pub enum OriginOutcome {
    /// A chunk that counts as true, with its bytes.
    Chunk(Vec<u8>),
    /// A chunk that counts as false.
    Falsy,
    /// The iterator is at its end.
    Exhausted,
    /// An error was raised.
    Raised(usize),
}

/// The answer to an action, from what the call gave. The first error is kept.
pub fn answer_action(call: OriginCall, outcome: OriginOutcome, error: &mut Option<usize>) -> (reply:
    BodyReply)
    ensures
        match outcome {
            OriginOutcome::Chunk(chunk) => reply matches BodyReply::Chunk(bytes) && bytes@
                == chunk@ && *final(error) == *old(error),
            OriginOutcome::Falsy => (if call is Read {
                reply is End
            } else {
                reply is Skip
            }) && *final(error) == *old(error),
            OriginOutcome::Exhausted => reply is End && *final(error) == *old(error),
            OriginOutcome::Raised(raised) => reply is Failed && *final(error) == (match *old(
                error,
            ) {
                Some(first) => Some(first),
                None => Some(raised),
            }),
        },
{
    match outcome {
        OriginOutcome::Chunk(chunk) => BodyReply::Chunk(chunk),
        OriginOutcome::Falsy => match call {
            OriginCall::Read(_) => BodyReply::End,
            _ => BodyReply::Skip,
        },
        OriginOutcome::Exhausted => BodyReply::End,
        OriginOutcome::Raised(raised) => {
            store_handler_error(error, raised);
            BodyReply::Failed
        },
    }
}

/// A body that is taken as a whole is taken once: after that its source only
/// answers that it has ended.
pub proof fn law_whole_body_is_taken_once(source: OriginBodySource)
    requires
        source is Once,
    ensures
        call_for(source_after(source, BodyAction::Next), BodyAction::Next)
            == OriginCall::AnswerEnd,
{
}

/// A question about a body that is asked before its source is chosen.
#[derive(Clone, Copy, Debug, PartialEq, Eq, Structural)]
pub enum BodyQuestion {
    /// How long is its UTF-8 encoding?
    EncodedLength,
    /// How long is it?
    Length,
    /// Does it have `read`?
    HasRead,
    /// How many bytes does a memory view of it have?
    View,
    /// Can it be iterated over?
    Iterate,
    /// What is its representation?
    Representation,
}

/// An answer about a body.
#[derive(Clone, Copy, Debug, PartialEq, Eq, Structural)]
pub enum BodyAnswer {
    Count(u64),
    Yes,
    No,
    /// A `TypeError` was raised.
    TypeError,
    /// Another error was raised.
    OtherError,
}

/// The built-in kind of a body.
#[derive(Clone, Copy, Debug, PartialEq, Eq, Structural)]
pub enum BodyKind {
    Nothing,
    Text,
    Bytes,
    Other,
}

/// How a body is streamed.
#[derive(Clone, Copy, Debug, PartialEq, Eq, Structural)]
pub struct BodySelection {
    pub mode: AdapterMode,
    pub source: OriginBodySource,
    pub size_hint: Option<u64>,
}

/// Where the choice of a source stands.
#[derive(Clone, Copy, Debug, PartialEq, Eq, Structural)]
pub enum SelectStep {
    Ask(BodyQuestion),
    /// There is no body.
    Nothing,
    Selected(BodySelection),
    /// The error that was raised goes on.
    PassError,
    /// The body is of no kind that can be sent; the error names it.
    Unsupported,
}

/// The first step of the choice, by the body's kind.
pub open spec fn first_step(kind: BodyKind) -> SelectStep {
    match kind {
        BodyKind::Nothing => SelectStep::Nothing,
        BodyKind::Text => SelectStep::Ask(BodyQuestion::EncodedLength),
        BodyKind::Bytes => SelectStep::Ask(BodyQuestion::Length),
        BodyKind::Other => SelectStep::Ask(BodyQuestion::HasRead),
    }
}

/// A body that is sent as a whole.
pub open spec fn whole_body(cached: bool, length: u64) -> SelectStep {
    SelectStep::Selected(
        BodySelection {
            mode: AdapterMode::Next,
            source: OriginBodySource::Once { pending: true, cached },
            size_hint: Some(length),
        },
    )
}

/// The step after an answer: a body with `read` is read, one with a buffer is
/// sent as a whole, one that can be iterated over is, and any other is refused.
pub open spec fn next_step(question: BodyQuestion, answer: BodyAnswer) -> SelectStep {
    match (question, answer) {
        (BodyQuestion::EncodedLength, BodyAnswer::Count(length)) => whole_body(true, length),
        (BodyQuestion::Length, BodyAnswer::Count(length)) => whole_body(false, length),
        (BodyQuestion::HasRead, BodyAnswer::Yes) => SelectStep::Selected(
            BodySelection {
                mode: AdapterMode::Read,
                source: OriginBodySource::Read,
                size_hint: None,
            },
        ),
        (BodyQuestion::HasRead, BodyAnswer::No) => SelectStep::Ask(BodyQuestion::View),
        (BodyQuestion::View, BodyAnswer::Count(length)) => whole_body(false, length),
        (BodyQuestion::View, BodyAnswer::TypeError) => SelectStep::Ask(BodyQuestion::Iterate),
        (BodyQuestion::Iterate, BodyAnswer::Yes) => SelectStep::Selected(
            BodySelection {
                mode: AdapterMode::Next,
                source: OriginBodySource::Iterator,
                size_hint: None,
            },
        ),
        (BodyQuestion::Iterate, BodyAnswer::TypeError) => SelectStep::Ask(
            BodyQuestion::Representation,
        ),
        (BodyQuestion::Representation, BodyAnswer::Yes) => SelectStep::Unsupported,
        _ => SelectStep::PassError,
    }
}

/// Begins the choice of a body's source.
pub fn select_body_source(kind: BodyKind) -> (step: SelectStep)
    ensures
        step == first_step(kind),
{
    match kind {
        BodyKind::Nothing => SelectStep::Nothing,
        BodyKind::Text => SelectStep::Ask(BodyQuestion::EncodedLength),
        BodyKind::Bytes => SelectStep::Ask(BodyQuestion::Length),
        BodyKind::Other => SelectStep::Ask(BodyQuestion::HasRead),
    }
}

/// Goes on with the choice after an answer.
pub fn select_after(question: BodyQuestion, answer: BodyAnswer) -> (step: SelectStep)
    ensures
        step == next_step(question, answer),
{
    match (question, answer) {
        (BodyQuestion::EncodedLength, BodyAnswer::Count(length)) => select_whole(true, length),
        (BodyQuestion::Length, BodyAnswer::Count(length)) => select_whole(false, length),
        (BodyQuestion::HasRead, BodyAnswer::Yes) => SelectStep::Selected(
            BodySelection {
                mode: AdapterMode::Read,
                source: OriginBodySource::Read,
                size_hint: None,
            },
        ),
        (BodyQuestion::HasRead, BodyAnswer::No) => SelectStep::Ask(BodyQuestion::View),
        (BodyQuestion::View, BodyAnswer::Count(length)) => select_whole(false, length),
        (BodyQuestion::View, BodyAnswer::TypeError) => SelectStep::Ask(BodyQuestion::Iterate),
        (BodyQuestion::Iterate, BodyAnswer::Yes) => SelectStep::Selected(
            BodySelection {
                mode: AdapterMode::Next,
                source: OriginBodySource::Iterator,
                size_hint: None,
            },
        ),
        (BodyQuestion::Iterate, BodyAnswer::TypeError) => SelectStep::Ask(
            BodyQuestion::Representation,
        ),
        (BodyQuestion::Representation, BodyAnswer::Yes) => SelectStep::Unsupported,
        _ => SelectStep::PassError,
    }
}

/// A body that is sent as a whole.
fn select_whole(cached: bool, length: u64) -> (step: SelectStep)
    ensures
        step == whole_body(cached, length),
{
    SelectStep::Selected(
        BodySelection {
            mode: AdapterMode::Next,
            source: OriginBodySource::Once { pending: true, cached },
            size_hint: Some(length),
        },
    )
}

/// Every selection asks for chunks in the way that its source answers.
pub proof fn law_selected_source_answers(question: BodyQuestion, answer: BodyAnswer)
    ensures
        next_step(question, answer) matches SelectStep::Selected(selection) ==> !(call_for(
            selection.source,
            (PythonBodyAdapter {
                mode: selection.mode,
                state: AdapterState::Idle,
                size_hint: selection.size_hint,
                failure: AdapterFailure::Absent,
                counters: None,
            }).wanted(),
        ) is Refuse),
{
}

/// The message of a body that cannot be sent.
pub fn unsupported_body_message(representation: &str) -> (text: String)
    ensures
        text@
            == "'body' must be a bytes-like object, file-like object, or iterable. Instead was "@
            + representation@,
{
    String::from_str(
        "'body' must be a bytes-like object, file-like object, or iterable. Instead was ",
    ).concat(representation)
}

/// How the bytes of a chunk are obtained.
#[derive(Clone, Copy, Debug, PartialEq, Eq, Structural)]
pub enum ChunkConversion {
    /// By encoding text as UTF-8.
    Encode,
    /// By copying a byte string.
    Copy,
    /// Through a memory view.
    View,
}

/// How the bytes of a chunk are obtained, by its built-in kind.
pub fn chunk_conversion(kind: BodyKind) -> (conversion: ChunkConversion)
    ensures
        conversion == (match kind {
            BodyKind::Text => ChunkConversion::Encode,
            BodyKind::Bytes => ChunkConversion::Copy,
            _ => ChunkConversion::View,
        }),
{
    match kind {
        BodyKind::Text => ChunkConversion::Encode,
        BodyKind::Bytes => ChunkConversion::Copy,
        _ => ChunkConversion::View,
    }
}

/// Which error is raised for a chunk without a buffer.
#[derive(Clone, Copy, Debug, PartialEq, Eq, Structural)]
pub enum ChunkError {
    /// The one that the memory view raised.
    View,
    /// The one that asking for the length raised.
    Length,
}

/// Which error is raised for a chunk without a buffer: where the chunk has no
/// length either, that is the error.
pub fn chunk_error(view_raised_type_error: bool, length_raised: bool) -> (error: ChunkError)
    ensures
        error == (if view_raised_type_error && length_raised {
            ChunkError::Length
        } else {
            ChunkError::View
        }),
{
    if view_raised_type_error && length_raised {
        ChunkError::Length
    } else {
        ChunkError::View
    }
}

/// The message of a stream that failed.
pub open spec fn failure_words(failure: AdapterFailure) -> Seq<char> {
    match failure {
        AdapterFailure::ActionReceiver => BridgeClosed::ActionReceiver.words(),
        AdapterFailure::ReplySender => BridgeClosed::ReplySender.words(),
        AdapterFailure::Handler => "Python body handler failed"@,
        AdapterFailure::Absent => "Python body adapter ended unexpectedly"@,
    }
}

/// The message of a stream that failed.
pub fn bridge_error(failure: AdapterFailure) -> (text: String)
    ensures
        text@ == failure_words(failure),
{
    match failure {
        AdapterFailure::ActionReceiver => BridgeClosed::ActionReceiver.message(),
        AdapterFailure::ReplySender => BridgeClosed::ReplySender.message(),
        AdapterFailure::Handler => String::from_str("Python body handler failed"),
        AdapterFailure::Absent => String::from_str("Python body adapter ended unexpectedly"),
    }
}

/// How a finished stream is reported.
#[derive(Clone, Copy, Debug, PartialEq, Eq, Structural)]
pub enum StreamReport {
    /// The handler's error is raised.
    RaiseHandlerError(usize),
    /// The bridge's failure is raised.
    RaiseFailure(AdapterFailure),
    /// The chunks are given.
    Chunks,
}

/// How a finished stream is reported: a handler's error comes first, then a
/// failure of the bridge.
pub fn report_stream(handler_error: Option<usize>, failure: AdapterFailure) -> (report:
    StreamReport)
    ensures
        report == (match handler_error {
            Some(error) => StreamReport::RaiseHandlerError(error),
            None => if failure is Absent {
                StreamReport::Chunks
            } else {
                StreamReport::RaiseFailure(failure)
            },
        }),
{
    match handler_error {
        Some(error) => StreamReport::RaiseHandlerError(error),
        None => match failure {
            AdapterFailure::Absent => StreamReport::Chunks,
            _ => StreamReport::RaiseFailure(failure),
        },
    }
}

/// What is so about a body that is to be streamed.
pub struct SourceFacts {
    pub kind: BodyKind,
    /// The length of the body, or of its encoded text.
    pub length: u64,
    pub has_read: bool,
    /// The length of the body as a view of bytes, where it can be taken as one.
    pub view: Option<u64>,
    pub can_iterate: bool,
}

/// What Python answers a question about a body.
pub open spec fn source_answer(facts: SourceFacts, question: BodyQuestion) -> BodyAnswer {
    match question {
        BodyQuestion::EncodedLength | BodyQuestion::Length => BodyAnswer::Count(facts.length),
        BodyQuestion::HasRead => if facts.has_read {
            BodyAnswer::Yes
        } else {
            BodyAnswer::No
        },
        BodyQuestion::View => match facts.view {
            Some(length) => BodyAnswer::Count(length),
            None => BodyAnswer::TypeError,
        },
        BodyQuestion::Iterate => if facts.can_iterate {
            BodyAnswer::Yes
        } else {
            BodyAnswer::TypeError
        },
        BodyQuestion::Representation => BodyAnswer::Yes,
    }
}

/// Where the selection of a body's source ends, with at most so many questions.
pub open spec fn selected_source(facts: SourceFacts, step: SelectStep, limit: nat) -> SelectStep
    decreases limit,
{
    match step {
        SelectStep::Ask(question) => if limit == 0 {
            step
        } else {
            selected_source(
                facts,
                next_step(question, source_answer(facts, question)),
                (limit - 1) as nat,
            )
        },
        _ => step,
    }
}

/// A text is streamed from its encoded bytes and bytes from themselves, whole and
/// with their length. Another body is read where it can be, else taken as a view
/// of bytes, else iterated over; one that allows none of these is not supported.
pub proof fn law_bodies_are_streamed_as_they_allow(facts: SourceFacts)
    ensures
        ({
            let end = selected_source(facts, first_step(facts.kind), 4);
            match facts.kind {
                BodyKind::Nothing => end is Nothing,
                BodyKind::Text => end matches SelectStep::Selected(selection) && selection.mode
                    is Next && selection.source == (OriginBodySource::Once {
                    pending: true,
                    cached: true,
                }) && selection.size_hint == Some(facts.length),
                BodyKind::Bytes => end matches SelectStep::Selected(selection) && selection.mode
                    is Next && selection.source == (OriginBodySource::Once {
                    pending: true,
                    cached: false,
                }) && selection.size_hint == Some(facts.length),
                BodyKind::Other => if facts.has_read {
                    end matches SelectStep::Selected(selection) && selection.mode is Read
                        && selection.source is Read && selection.size_hint is None
                } else if facts.view is Some {
                    end matches SelectStep::Selected(selection) && selection.mode is Next
                        && selection.source == (OriginBodySource::Once {
                        pending: true,
                        cached: false,
                    }) && selection.size_hint == facts.view
                } else if facts.can_iterate {
                    end matches SelectStep::Selected(selection) && selection.mode is Next
                        && selection.source is Iterator && selection.size_hint is None
                } else {
                    end is Unsupported
                },
            }
        }),
        forall|question: BodyQuestion|
            #[trigger] next_step(question, BodyAnswer::OtherError) is PassError,
{
    reveal_with_fuel(selected_source, 5);
}

/// A whole body is taken once, the encoded text where there is one and else the
/// body itself, and then it is at its end.
pub proof fn law_a_whole_body_is_taken_and_ends(cached: bool)
    ensures
        ({
            let source = OriginBodySource::Once { pending: true, cached };
            let after = source_after(source, BodyAction::Next);
            &&& call_for(source, BodyAction::Next) == (if cached {
                OriginCall::TakeCached
            } else {
                OriginCall::TakeBody
            })
            &&& call_for(after, BodyAction::Next) is AnswerEnd
            &&& source_after(after, BodyAction::Next) == after
        }),
        call_for(OriginBodySource::Iterator, BodyAction::Next) is Next,
        source_after(OriginBodySource::Iterator, BodyAction::Next) is Iterator,
        forall|size: usize|
            #[trigger] call_for(OriginBodySource::Read, BodyAction::Read { size })
                == OriginCall::Read(size),
{
}

/// Each queued action and each reply is counted, once and in its own count.
pub proof fn law_actions_and_replies_are_counted(
    adapter: PythonBodyAdapter,
    counters: LifecycleCounters,
    reply: BodyReply,
)
    requires
        adapter.counters == Some(counters),
        !(adapter.state is Done),
        counters.queued_actions < 255,
        counters.replies_observed < 255,
    ensures
        adapter.after(AdapterEvent::Queued).counters matches Some(after) && after.queued_actions
            == counters.queued_actions + 1 && after.replies_observed == counters.replies_observed,
        adapter.after(AdapterEvent::Reply(reply)).counters matches Some(after)
            && after.replies_observed == counters.replies_observed + 1 && after.queued_actions
            == counters.queued_actions,
{
}

/// A piece or a skipped one leaves the stream ready for the next action; the end
/// ends it without a failure. Each way to fail is told apart, and an adapter that
/// is done stays as it is.
pub proof fn law_replies_move_the_stream(
    adapter: PythonBodyAdapter,
    event: AdapterEvent,
    reply: BodyReply,
)
    ensures
        adapter.state is Done ==> adapter.after(event) == adapter,
        !(adapter.state is Done) && (reply is Chunk || reply is Skip) ==> adapter.after(
            AdapterEvent::Reply(reply),
        ).state is Idle,
        !(adapter.state is Done) ==> adapter.after(AdapterEvent::Reply(BodyReply::End)).state is Done
            && adapter.after(AdapterEvent::Reply(BodyReply::End)).failure == adapter.failure,
        !(adapter.state is Done) && adapter.failure is Absent ==> {
            &&& adapter.after(AdapterEvent::Reply(BodyReply::Failed)).failure is Handler
            &&& adapter.after(AdapterEvent::Closed(BridgeClosed::ActionReceiver)).failure
                is ActionReceiver
            &&& adapter.after(AdapterEvent::Closed(BridgeClosed::ReplySender)).failure
                is ReplySender
        },
        adapter.after(event).mode == adapter.mode,
        adapter.after(event).size_hint == adapter.size_hint,
        adapter.mode is Read ==> adapter.wanted() == (BodyAction::Read { size: BODY_BLOCK_SIZE }),
        adapter.mode is Next ==> adapter.wanted() is Next,
{
}

/// Failures are told apart by their numbers.
pub proof fn law_failures_have_their_own_numbers(first: AdapterFailure, second: AdapterFailure)
    ensures
        first.raw() == second.raw() ==> first == second,
        AdapterFailure::Absent.raw() == 0,
        AdapterFailure::Handler.raw() == 1,
        AdapterFailure::ActionReceiver.raw() == 2,
        AdapterFailure::ReplySender.raw() == 3,
        failure_words(AdapterFailure::Handler) == "Python body handler failed"@,
        failure_words(AdapterFailure::Absent) == "Python body adapter ended unexpectedly"@,
        failure_words(AdapterFailure::ActionReceiver) == "Python action receiver closed"@,
        failure_words(AdapterFailure::ReplySender) == "Python action reply sender closed"@,
{
}

/// A source is asked only in its own way: a source that reads is not asked for the
/// next piece, one that gives pieces is not asked to read, and a body that is
/// handed over whole is handed over once.
pub proof fn law_sources_are_asked_in_their_own_way(source: OriginBodySource, action: BodyAction)
    ensures
        call_for(source, action) is Read ==> source is Read,
        call_for(source, action) is Next ==> source is Iterator,
        call_for(source, action) is AnswerEnd ==> (source matches OriginBodySource::Once {
            pending,
            ..
        } && !pending),
        call_for(source, action) is TakeCached ==> (source matches OriginBodySource::Once {
            pending,
            cached,
        } && pending && cached),
        call_for(source, action) is TakeBody ==> (source matches OriginBodySource::Once {
            pending,
            cached,
        } && pending && !cached),
        action is Read && !(source is Read) ==> call_for(source, action) is Refuse,
        action is Next && source is Read ==> call_for(source, action) is Refuse,
        action is Read && source is Read ==> !(call_for(source, action) is Refuse),
        action is Next && !(source is Read) ==> !(call_for(source, action) is Refuse),
{
}

} // verus!
