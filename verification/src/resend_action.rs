//! What the Python thread does for each action of a worker that answers a
//! digest challenge.

use vstd::prelude::*;

use crate::resend::{ActionView, Digest401Action, Digest401Reply, MissingPart, OriginDigest401Owner};
use crate::resend::{missing_for, ReplyView};

verus! {

/// An entry of the audit.
#[derive(Clone, Copy, Debug, PartialEq, Eq, Structural)]
pub enum AuditEntry {
    Seek,
    Challenge,
    Content,
    Close,
    Copy,
    Extract,
    PrepareCookies,
    Build,
    Header,
    Send,
    History,
    Request,
}

impl AuditEntry {
    /// The entry in words.
    pub open spec fn words(self) -> Seq<char> {
        match self {
            AuditEntry::Seek => "seek"@,
            AuditEntry::Challenge => "challenge"@,
            AuditEntry::Content => "content"@,
            AuditEntry::Close => "close"@,
            AuditEntry::Copy => "copy"@,
            AuditEntry::Extract => "extract"@,
            AuditEntry::PrepareCookies => "prepare-cookies"@,
            AuditEntry::Build => "build"@,
            AuditEntry::Header => "header"@,
            AuditEntry::Send => "send"@,
            AuditEntry::History => "history"@,
            AuditEntry::Request => "request"@,
        }
    }

    /// The entry in words.
    pub fn digest_401_audit(&self) -> (label: &'static str)
        ensures
            label@ == self.words(),
    {
        match self {
            AuditEntry::Seek => "seek",
            AuditEntry::Challenge => "challenge",
            AuditEntry::Content => "content",
            AuditEntry::Close => "close",
            AuditEntry::Copy => "copy",
            AuditEntry::Extract => "extract",
            AuditEntry::PrepareCookies => "prepare-cookies",
            AuditEntry::Build => "build",
            AuditEntry::Header => "header",
            AuditEntry::Send => "send",
            AuditEntry::History => "history",
            AuditEntry::Request => "request",
        }
    }
}

/// Something that is done in Python for an action.
#[derive(Clone, Copy, Debug, PartialEq, Eq, Structural)]
pub enum ActionCall {
    /// The subject's `_thread_local` is read.
    ThreadLocal,
    /// An entry is added to the audit.
    Audit(AuditEntry),
    /// Its `pos` is read.
    Position,
    /// The `seek` of the body of the response's request is looked up.
    FindSeek,
    /// It is called with the position.
    Rewind { seek: usize, position: usize },
    /// The `www-authenticate` header is read, or the empty text.
    ReadChallenge,
    /// `num_401_calls` is set.
    SetCount { value: u32 },
    /// The first "digest ", in whatever case, is taken out of the challenge,
    /// and the rest taken apart.
    TakeApart,
    /// `chal` is set.
    KeepChallenge { challenge: usize },
    ReadContent,
    CloseResponse,
    /// The response's request is copied.
    CopyRequest,
    /// The response's cookies go into the jar of the copy.
    ExtractCookies { request: usize },
    /// The copy's cookies are prepared from its jar.
    PrepareCookies { request: usize },
    /// The subject builds the header for the copy's method and address.
    BuildHeader { request: usize },
    /// The copy's `Authorization` is set.
    SetHeader { request: usize, header: usize },
    /// The response's connection sends the copy, with the given arguments.
    Send { request: usize },
    /// The response is appended to the history of the new one.
    AppendHistory { sent: usize },
    /// The new response's request is set.
    ReplaceRequest { sent: usize, request: usize },
}

/// What came of it.
#[derive(Debug)]
pub enum CallAnswer {
    Done,
    /// There is no such thing, or it is `None`.
    Nothing,
    Object(usize),
    Text(String),
    Raised(usize),
}

/// What came of it, by its contents.
pub enum AnswerView {
    Done,
    Nothing,
    Object(usize),
    Text(Seq<char>),
    Raised(usize),
}

impl View for CallAnswer {
    type V = AnswerView;

    open spec fn view(&self) -> AnswerView {
        match *self {
            CallAnswer::Done => AnswerView::Done,
            CallAnswer::Nothing => AnswerView::Nothing,
            CallAnswer::Object(object) => AnswerView::Object(object),
            CallAnswer::Text(text) => AnswerView::Text(text@),
            CallAnswer::Raised(error) => AnswerView::Raised(error),
        }
    }
}

/// Where the Python thread is with an action: what the next answer is about.
#[derive(Clone, Copy, Debug, PartialEq, Eq, Structural)]
pub enum ActionPlace {
    Opened,
    Recorded,
    Position,
    FoundSeek { position: usize },
    RewindRecorded { seek: usize, position: usize },
    Challenge,
    TakenApart,
    Copied,
    Built,
    HeaderRecorded { header: usize },
    Sent,
    Last,
}

/// What is done next.
#[derive(Debug)]
pub enum ActionStep {
    Call(ActionCall),
    Reply(Digest401Reply),
    /// An error is raised that says what is missing.
    Missing(MissingPart),
}

/// What is done next, by its contents.
pub enum StepView {
    Call(ActionCall),
    Reply(ReplyView),
    Missing(MissingPart),
}

impl View for ActionStep {
    type V = StepView;

    open spec fn view(&self) -> StepView {
        match *self {
            ActionStep::Call(call) => StepView::Call(call),
            ActionStep::Reply(reply) => StepView::Reply(reply@),
            ActionStep::Missing(part) => StepView::Missing(part),
        }
    }
}

/// The entry that an action leaves in the audit before anything else is done
/// to the request or the response.
pub open spec fn first_entry(action: ActionView) -> Option<AuditEntry> {
    match action {
        ActionView::Challenge => Some(AuditEntry::Challenge),
        ActionView::Consume => Some(AuditEntry::Content),
        ActionView::Close => Some(AuditEntry::Close),
        ActionView::Copy => Some(AuditEntry::Copy),
        ActionView::ExtractCookies => Some(AuditEntry::Extract),
        ActionView::PrepareCookies => Some(AuditEntry::PrepareCookies),
        ActionView::BuildDigestHeader => Some(AuditEntry::Build),
        ActionView::Send => Some(AuditEntry::Send),
        ActionView::AppendHistory => Some(AuditEntry::History),
        ActionView::ReplaceRequest => Some(AuditEntry::Request),
        _ => None,
    }
}

/// What is done once the thread's own state is at hand.
pub open spec fn opened(action: ActionView) -> (ActionPlace, ActionCall) {
    match action {
        ActionView::Seek => (ActionPlace::Position, ActionCall::Position),
        ActionView::Reset401 => (ActionPlace::Last, ActionCall::SetCount { value: 1 }),
        ActionView::Increment401 { value } => (ActionPlace::Last, ActionCall::SetCount { value }),
        ActionView::Parse { header } => (ActionPlace::TakenApart, ActionCall::TakeApart),
        ActionView::Challenge => (ActionPlace::Recorded, ActionCall::Audit(AuditEntry::Challenge)),
        ActionView::Consume => (ActionPlace::Recorded, ActionCall::Audit(AuditEntry::Content)),
        ActionView::Close => (ActionPlace::Recorded, ActionCall::Audit(AuditEntry::Close)),
        ActionView::Copy => (ActionPlace::Recorded, ActionCall::Audit(AuditEntry::Copy)),
        ActionView::ExtractCookies => (
            ActionPlace::Recorded,
            ActionCall::Audit(AuditEntry::Extract),
        ),
        ActionView::PrepareCookies => (
            ActionPlace::Recorded,
            ActionCall::Audit(AuditEntry::PrepareCookies),
        ),
        ActionView::BuildDigestHeader => (
            ActionPlace::Recorded,
            ActionCall::Audit(AuditEntry::Build),
        ),
        ActionView::Send => (ActionPlace::Recorded, ActionCall::Audit(AuditEntry::Send)),
        ActionView::AppendHistory => (ActionPlace::Recorded, ActionCall::Audit(AuditEntry::History)),
        ActionView::ReplaceRequest => (
            ActionPlace::Recorded,
            ActionCall::Audit(AuditEntry::Request),
        ),
    }
}

/// What is done once the action is recorded and nothing is missing. The copied
/// request and the response to it stand for themselves where the action works
/// on them.
pub open spec fn recorded(action: ActionView, request: usize, sent: usize) -> (
    ActionPlace,
    ActionCall,
) {
    match action {
        ActionView::Challenge => (ActionPlace::Challenge, ActionCall::ReadChallenge),
        ActionView::Consume => (ActionPlace::Last, ActionCall::ReadContent),
        ActionView::Close => (ActionPlace::Last, ActionCall::CloseResponse),
        ActionView::Copy => (ActionPlace::Copied, ActionCall::CopyRequest),
        ActionView::ExtractCookies => (ActionPlace::Last, ActionCall::ExtractCookies { request }),
        ActionView::PrepareCookies => (ActionPlace::Last, ActionCall::PrepareCookies { request }),
        ActionView::BuildDigestHeader => (ActionPlace::Built, ActionCall::BuildHeader { request }),
        ActionView::Send => (ActionPlace::Sent, ActionCall::Send { request }),
        ActionView::AppendHistory => (ActionPlace::Last, ActionCall::AppendHistory { sent }),
        ActionView::ReplaceRequest => (
            ActionPlace::Last,
            ActionCall::ReplaceRequest { sent, request },
        ),
        _ => (ActionPlace::Last, ActionCall::ThreadLocal),
    }
}

/// An object, or the first one where there is none.
pub open spec fn object_or_zero(object: Option<usize>) -> usize {
    match object {
        Some(object) => object,
        None => 0,
    }
}

/// Where the Python thread is after an answer, what it holds then, and what is
/// done next. An error is kept, the first one, and the action fails.
pub open spec fn action_after(
    owner: OriginDigest401Owner,
    action: ActionView,
    place: ActionPlace,
    answer: AnswerView,
) -> (OriginDigest401Owner, ActionPlace, StepView) {
    match (place, answer) {
        (_, AnswerView::Raised(error)) => (
            OriginDigest401Owner {
                handler_error: match owner.handler_error {
                    Some(first) => Some(first),
                    None => Some(error),
                },
                ..owner
            },
            ActionPlace::Last,
            StepView::Reply(ReplyView::Failed),
        ),
        (ActionPlace::Opened, _) => (
            owner,
            opened(action).0,
            StepView::Call(opened(action).1),
        ),
        (ActionPlace::Recorded, _) => match missing_for(action, owner.prepared, owner.sent) {
            Some(part) => (owner, ActionPlace::Last, StepView::Missing(part)),
            None => {
                let next = recorded(
                    action,
                    object_or_zero(owner.prepared),
                    object_or_zero(owner.sent),
                );
                (owner, next.0, StepView::Call(next.1))
            },
        },
        (ActionPlace::Position, AnswerView::Object(position)) => (
            owner,
            ActionPlace::FoundSeek { position },
            StepView::Call(ActionCall::FindSeek),
        ),
        (ActionPlace::FoundSeek { position }, AnswerView::Object(seek)) => (
            owner,
            ActionPlace::RewindRecorded { seek, position },
            StepView::Call(ActionCall::Audit(AuditEntry::Seek)),
        ),
        (ActionPlace::RewindRecorded { seek, position }, _) => (
            owner,
            ActionPlace::Last,
            StepView::Call(ActionCall::Rewind { seek, position }),
        ),
        (ActionPlace::Challenge, AnswerView::Text(text)) => (
            owner,
            ActionPlace::Last,
            StepView::Reply(ReplyView::Header(text)),
        ),
        (ActionPlace::TakenApart, AnswerView::Object(challenge)) => (
            owner,
            ActionPlace::Last,
            StepView::Call(ActionCall::KeepChallenge { challenge }),
        ),
        (ActionPlace::Copied, AnswerView::Object(request)) => (
            OriginDigest401Owner { prepared: Some(request), ..owner },
            ActionPlace::Last,
            StepView::Reply(ReplyView::Ack),
        ),
        (ActionPlace::Built, AnswerView::Object(header)) => (
            owner,
            ActionPlace::HeaderRecorded { header },
            StepView::Call(ActionCall::Audit(AuditEntry::Header)),
        ),
        (ActionPlace::HeaderRecorded { header }, _) => (
            owner,
            ActionPlace::Last,
            StepView::Call(
                ActionCall::SetHeader { request: object_or_zero(owner.prepared), header },
            ),
        ),
        (ActionPlace::Sent, AnswerView::Object(sent)) => (
            OriginDigest401Owner { sent: Some(sent), ..owner },
            ActionPlace::Last,
            StepView::Reply(ReplyView::Ack),
        ),
        _ => (owner, ActionPlace::Last, StepView::Reply(ReplyView::Ack)),
    }
}

/// Whether a place can be answered so: a call that gives something is answered
/// with it, unless an error was raised.
pub open spec fn answer_fits(place: ActionPlace, answer: AnswerView) -> bool {
    answer is Raised || match place {
        ActionPlace::Challenge => answer is Text,
        ActionPlace::TakenApart => answer is Object,
        ActionPlace::Copied => answer is Object,
        ActionPlace::Built => answer is Object,
        ActionPlace::Sent => answer is Object,
        _ => true,
    }
}

/// What is done once the thread's own state is at hand.
fn open_action(action: &Digest401Action) -> (next: (ActionPlace, ActionCall))
    ensures
        next == opened(action@),
{
    match action {
        Digest401Action::Seek => (ActionPlace::Position, ActionCall::Position),
        Digest401Action::Reset401 => (ActionPlace::Last, ActionCall::SetCount { value: 1 }),
        Digest401Action::Increment401 { value } => (
            ActionPlace::Last,
            ActionCall::SetCount { value: *value },
        ),
        Digest401Action::Parse { header: _ } => (ActionPlace::TakenApart, ActionCall::TakeApart),
        Digest401Action::Challenge => (
            ActionPlace::Recorded,
            ActionCall::Audit(AuditEntry::Challenge),
        ),
        Digest401Action::Consume => (ActionPlace::Recorded, ActionCall::Audit(AuditEntry::Content)),
        Digest401Action::Close => (ActionPlace::Recorded, ActionCall::Audit(AuditEntry::Close)),
        Digest401Action::Copy => (ActionPlace::Recorded, ActionCall::Audit(AuditEntry::Copy)),
        Digest401Action::ExtractCookies => (
            ActionPlace::Recorded,
            ActionCall::Audit(AuditEntry::Extract),
        ),
        Digest401Action::PrepareCookies => (
            ActionPlace::Recorded,
            ActionCall::Audit(AuditEntry::PrepareCookies),
        ),
        Digest401Action::BuildDigestHeader => (
            ActionPlace::Recorded,
            ActionCall::Audit(AuditEntry::Build),
        ),
        Digest401Action::Send => (ActionPlace::Recorded, ActionCall::Audit(AuditEntry::Send)),
        Digest401Action::AppendHistory => (
            ActionPlace::Recorded,
            ActionCall::Audit(AuditEntry::History),
        ),
        Digest401Action::ReplaceRequest => (
            ActionPlace::Recorded,
            ActionCall::Audit(AuditEntry::Request),
        ),
    }
}

/// What is done once the action is recorded and nothing is missing.
fn carry_out(action: &Digest401Action, request: usize, sent: usize) -> (next: (
    ActionPlace,
    ActionCall,
))
    ensures
        next == recorded(action@, request, sent),
{
    match action {
        Digest401Action::Challenge => (ActionPlace::Challenge, ActionCall::ReadChallenge),
        Digest401Action::Consume => (ActionPlace::Last, ActionCall::ReadContent),
        Digest401Action::Close => (ActionPlace::Last, ActionCall::CloseResponse),
        Digest401Action::Copy => (ActionPlace::Copied, ActionCall::CopyRequest),
        Digest401Action::ExtractCookies => (
            ActionPlace::Last,
            ActionCall::ExtractCookies { request },
        ),
        Digest401Action::PrepareCookies => (
            ActionPlace::Last,
            ActionCall::PrepareCookies { request },
        ),
        Digest401Action::BuildDigestHeader => (
            ActionPlace::Built,
            ActionCall::BuildHeader { request },
        ),
        Digest401Action::Send => (ActionPlace::Sent, ActionCall::Send { request }),
        Digest401Action::AppendHistory => (ActionPlace::Last, ActionCall::AppendHistory { sent }),
        Digest401Action::ReplaceRequest => (
            ActionPlace::Last,
            ActionCall::ReplaceRequest { sent, request },
        ),
        _ => (ActionPlace::Last, ActionCall::ThreadLocal),
    }
}

/// An object, or the first one where there is none.
fn or_zero(object: Option<usize>) -> (value: usize)
    ensures
        value == object_or_zero(object),
{
    match object {
        Some(object) => object,
        None => 0,
    }
}

impl OriginDigest401Owner {
    /// Begins an action: the thread's own state is read first.
    pub fn begin_action(&self) -> (step: (ActionPlace, ActionCall))
        ensures
            step == (ActionPlace::Opened, ActionCall::ThreadLocal),
    {
        (ActionPlace::Opened, ActionCall::ThreadLocal)
    }

    /// Goes on with an action after an answer.
    pub fn digest_401_action(
        &mut self,
        action: &Digest401Action,
        place: ActionPlace,
        answer: CallAnswer,
    ) -> (next: (ActionPlace, ActionStep))
        requires
            answer_fits(place, answer@),
        ensures
            (*final(self), next.0, next.1@) == action_after(*old(self), action@, place, answer@),
    {
        match (place, answer) {
            (_, CallAnswer::Raised(error)) => {
                let reply = self.store_digest_401_error(error);
                (ActionPlace::Last, ActionStep::Reply(reply))
            },
            (ActionPlace::Opened, _) => {
                let (next, call) = open_action(action);
                (next, ActionStep::Call(call))
            },
            (ActionPlace::Recorded, _) => match self.missing_part(action) {
                Some(part) => (ActionPlace::Last, ActionStep::Missing(part)),
                None => {
                    let (next, call) = carry_out(
                        action,
                        or_zero(self.prepared),
                        or_zero(self.sent),
                    );
                    (next, ActionStep::Call(call))
                },
            },
            (ActionPlace::Position, CallAnswer::Object(position)) => (
                ActionPlace::FoundSeek { position },
                ActionStep::Call(ActionCall::FindSeek),
            ),
            (ActionPlace::FoundSeek { position }, CallAnswer::Object(seek)) => (
                ActionPlace::RewindRecorded { seek, position },
                ActionStep::Call(ActionCall::Audit(AuditEntry::Seek)),
            ),
            (ActionPlace::RewindRecorded { seek, position }, _) => (
                ActionPlace::Last,
                ActionStep::Call(ActionCall::Rewind { seek, position }),
            ),
            (ActionPlace::Challenge, CallAnswer::Text(text)) => (
                ActionPlace::Last,
                ActionStep::Reply(Digest401Reply::Header(text)),
            ),
            (ActionPlace::TakenApart, CallAnswer::Object(challenge)) => (
                ActionPlace::Last,
                ActionStep::Call(ActionCall::KeepChallenge { challenge }),
            ),
            (ActionPlace::Copied, CallAnswer::Object(request)) => {
                self.keep_prepared(request);
                (ActionPlace::Last, ActionStep::Reply(Digest401Reply::Ack))
            },
            (ActionPlace::Built, CallAnswer::Object(header)) => (
                ActionPlace::HeaderRecorded { header },
                ActionStep::Call(ActionCall::Audit(AuditEntry::Header)),
            ),
            (ActionPlace::HeaderRecorded { header }, _) => (
                ActionPlace::Last,
                ActionStep::Call(
                    ActionCall::SetHeader { request: or_zero(self.prepared), header },
                ),
            ),
            (ActionPlace::Sent, CallAnswer::Object(sent)) => {
                self.keep_sent(sent);
                (ActionPlace::Last, ActionStep::Reply(Digest401Reply::Ack))
            },
            _ => (ActionPlace::Last, ActionStep::Reply(Digest401Reply::Ack)),
        }
    }
}

/// An action on the request or the response is recorded before it is carried
/// out, and whatever is missing is told only after that.
pub proof fn law_actions_are_recorded_first(
    owner: OriginDigest401Owner,
    action: ActionView,
    answer: AnswerView,
)
    requires
        !(answer is Raised),
        first_entry(action) is Some,
    ensures
        ({
            let next = action_after(owner, action, ActionPlace::Opened, answer);
            &&& next.0 == owner
            &&& next.1 == ActionPlace::Recorded
            &&& Some(next.2) == Some(
                StepView::Call(ActionCall::Audit(first_entry(action)->Some_0)),
            )
        }),
{
}

/// Where the copied request and the response to it were kept, no action lacks
/// anything.
pub proof fn law_kept_parts_are_found(
    owner: OriginDigest401Owner,
    action: ActionView,
    place: ActionPlace,
    answer: AnswerView,
)
    requires
        owner.prepared is Some,
        owner.sent is Some,
    ensures
        !(action_after(owner, action, place, answer).2 is Missing),
{
}

/// What Python holds and gives while an action is executed.
pub struct ActionWorld {
    pub thread_local: usize,
    /// The position of the body, where it is known.
    pub position: Option<usize>,
    /// The `seek` of the body, where it has one.
    pub seek: Option<usize>,
    pub challenge: Seq<char>,
    pub parts: usize,
    pub copy: usize,
    pub header: usize,
    pub reply: usize,
    /// What every other call gives, which is of no use.
    pub other: AnswerView,
}

/// An object, or nothing.
pub open spec fn given(object: Option<usize>) -> AnswerView {
    match object {
        Some(object) => AnswerView::Object(object),
        None => AnswerView::Nothing,
    }
}

/// What Python answers a call.
pub open spec fn world_answer(world: ActionWorld, call: ActionCall) -> AnswerView {
    match call {
        ActionCall::ThreadLocal => AnswerView::Object(world.thread_local),
        ActionCall::Position => given(world.position),
        ActionCall::FindSeek => given(world.seek),
        ActionCall::ReadChallenge => AnswerView::Text(world.challenge),
        ActionCall::TakeApart => AnswerView::Object(world.parts),
        ActionCall::CopyRequest => AnswerView::Object(world.copy),
        ActionCall::BuildHeader { .. } => AnswerView::Object(world.header),
        ActionCall::Send { .. } => AnswerView::Object(world.reply),
        _ => world.other,
    }
}

/// The calls of an action from a call on, with at most so many more, what the
/// owner then holds, and what the action comes to.
pub open spec fn action_course(
    owner: OriginDigest401Owner,
    action: ActionView,
    place: ActionPlace,
    call: ActionCall,
    world: ActionWorld,
    limit: nat,
) -> (Seq<ActionCall>, OriginDigest401Owner, StepView)
    decreases limit,
{
    let (after, next, step) = action_after(owner, action, place, world_answer(world, call));
    match step {
        StepView::Call(more) => if limit == 0 {
            (seq![call], after, step)
        } else {
            let (calls, end, result) = action_course(
                after,
                action,
                next,
                more,
                world,
                (limit - 1) as nat,
            );
            (seq![call] + calls, end, result)
        },
        _ => (seq![call], after, step),
    }
}

/// The calls that an action makes behind the first, given the request that is sent
/// again and the response to it.
pub open spec fn own_calls(action: ActionView, world: ActionWorld, request: usize, sent: usize) -> Seq<
    ActionCall,
> {
    match action {
        ActionView::Seek => match (world.position, world.seek) {
            (Some(position), Some(seek)) => seq![
                ActionCall::Position,
                ActionCall::FindSeek,
                ActionCall::Audit(AuditEntry::Seek),
                ActionCall::Rewind { seek, position },
            ],
            (Some(_), None) => seq![ActionCall::Position, ActionCall::FindSeek],
            _ => seq![ActionCall::Position],
        },
        ActionView::Challenge => seq![
            ActionCall::Audit(AuditEntry::Challenge),
            ActionCall::ReadChallenge,
        ],
        ActionView::Reset401 => seq![ActionCall::SetCount { value: 1 }],
        ActionView::Increment401 { value } => seq![ActionCall::SetCount { value }],
        ActionView::Parse { .. } => seq![
            ActionCall::TakeApart,
            ActionCall::KeepChallenge { challenge: world.parts },
        ],
        ActionView::Consume => seq![
            ActionCall::Audit(AuditEntry::Content),
            ActionCall::ReadContent,
        ],
        ActionView::Close => seq![ActionCall::Audit(AuditEntry::Close), ActionCall::CloseResponse],
        ActionView::Copy => seq![ActionCall::Audit(AuditEntry::Copy), ActionCall::CopyRequest],
        ActionView::ExtractCookies => seq![
            ActionCall::Audit(AuditEntry::Extract),
            ActionCall::ExtractCookies { request },
        ],
        ActionView::PrepareCookies => seq![
            ActionCall::Audit(AuditEntry::PrepareCookies),
            ActionCall::PrepareCookies { request },
        ],
        ActionView::BuildDigestHeader => seq![
            ActionCall::Audit(AuditEntry::Build),
            ActionCall::BuildHeader { request },
            ActionCall::Audit(AuditEntry::Header),
            ActionCall::SetHeader { request, header: world.header },
        ],
        ActionView::Send => seq![ActionCall::Audit(AuditEntry::Send), ActionCall::Send { request }],
        ActionView::AppendHistory => seq![
            ActionCall::Audit(AuditEntry::History),
            ActionCall::AppendHistory { sent },
        ],
        ActionView::ReplaceRequest => seq![
            ActionCall::Audit(AuditEntry::Request),
            ActionCall::ReplaceRequest { sent, request },
        ],
    }
}

/// Whether an action makes its own calls, remembers what it is to remember, and
/// replies as it is to.
pub open spec fn does_its_own(
    owner: OriginDigest401Owner,
    action: ActionView,
    world: ActionWorld,
    request: usize,
    sent: usize,
) -> bool {
    let (calls, end, result) = action_course(
        owner,
        action,
        ActionPlace::Opened,
        ActionCall::ThreadLocal,
        world,
        5,
    );
    &&& calls == seq![ActionCall::ThreadLocal] + own_calls(action, world, request, sent)
    &&& result == StepView::Reply(
        if action is Challenge {
            ReplyView::Header(world.challenge)
        } else {
            ReplyView::Ack
        },
    )
    &&& end == (OriginDigest401Owner {
        prepared: Some(
            if action is Copy {
                world.copy
            } else {
                request
            },
        ),
        sent: Some(
            if action is Send {
                world.reply
            } else {
                sent
            },
        ),
        ..owner
    })
}

/// An action makes its own calls, on the request that is sent again and on the
/// response to it: a body is rewound to its position where it can be, the header
/// that was built is set, and what was taken apart is kept. Copying remembers the
/// copy, sending remembers the response, and nothing else is changed. The reply is
/// the challenge where it was read, and else that all is done.
#[verifier::spinoff_prover]
#[verifier::rlimit(60)]
pub proof fn law_actions_make_their_own_calls(
    owner: OriginDigest401Owner,
    action: ActionView,
    world: ActionWorld,
    request: usize,
    sent: usize,
)
    requires
        owner.prepared == Some(request),
        owner.sent == Some(sent),
        !(world.other is Raised),
    ensures
        does_its_own(owner, action, world, request, sent),
{
    let first = seq![ActionCall::ThreadLocal];
    let start = (ActionPlace::Opened, ActionCall::ThreadLocal);
    let calls = action_course(owner, action, start.0, start.1, world, 5).0;
    let own = own_calls(action, world, request, sent);
    match action {
        ActionView::Seek => {
            assert(does_its_own(owner, action, world, request, sent)) by {
                reveal_with_fuel(action_course, 6);
                assert(calls =~= first + own);
            }
        },
        ActionView::BuildDigestHeader => {
            assert(does_its_own(owner, action, world, request, sent)) by {
                reveal_with_fuel(action_course, 6);
                assert(calls =~= first + own);
            }
        },
        ActionView::Reset401 | ActionView::Increment401 { .. } => {
            assert(does_its_own(owner, action, world, request, sent)) by {
                reveal_with_fuel(action_course, 3);
                assert(calls =~= first + own);
            }
        },
        _ => {
            assert(does_its_own(owner, action, world, request, sent)) by {
                reveal_with_fuel(action_course, 4);
                assert(calls =~= first + own);
            }
        },
    }
}

/// An error of Python ends an action at any place; the first one is kept.
pub proof fn law_errors_end_an_action(
    owner: OriginDigest401Owner,
    action: ActionView,
    place: ActionPlace,
    error: usize,
)
    ensures
        ({
            let (after, _, step) = action_after(owner, action, place, AnswerView::Raised(error));
            &&& step == StepView::Reply(ReplyView::Failed)
            &&& after.handler_error is Some
            &&& owner.handler_error is None ==> after.handler_error == Some(error)
            &&& owner.handler_error is Some ==> after.handler_error == owner.handler_error
            &&& after.prepared == owner.prepared && after.sent == owner.sent && after.response
                == owner.response
        }),
{
}

/// Each audit entry has its own words.
pub proof fn law_words_of_audit_entry()
    ensures
        AuditEntry::Seek.words() == "seek"@,
        AuditEntry::Challenge.words() == "challenge"@,
        AuditEntry::Content.words() == "content"@,
        AuditEntry::Close.words() == "close"@,
        AuditEntry::Copy.words() == "copy"@,
        AuditEntry::Extract.words() == "extract"@,
        AuditEntry::PrepareCookies.words() == "prepare-cookies"@,
        AuditEntry::Build.words() == "build"@,
        AuditEntry::Header.words() == "header"@,
        AuditEntry::Send.words() == "send"@,
        AuditEntry::History.words() == "history"@,
        AuditEntry::Request.words() == "request"@,
{
}

} // verus!
