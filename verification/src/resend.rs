//! The answer to a digest challenge: the steps between a response with status
//! 401 and the response to the request that is sent again.

use vstd::prelude::*;
use vstd::string::StringExecFns;

use crate::bridge::{store_handler_error, BridgeClosed, WorkerPayload};
use crate::retry::optional_view;
use crate::text::{chars_of, lower_text, lowered};

verus! {

/// Whether a text holds another.
pub open spec fn contains_text(text: Seq<char>, part: Seq<char>) -> bool {
    exists|place: int|
        0 <= place <= text.len() - part.len() && #[trigger] text.subrange(
            place,
            place + part.len(),
        ) == part
}

/// Whether a part stands at a place of a text.
fn stands_at(text: &Vec<char>, part: &Vec<char>, place: usize) -> (yes: bool)
    requires
        place + part@.len() <= text@.len(),
    ensures
        yes == (text@.subrange(place as int, place + part@.len()) == part@),
{
    let total: usize = text.len();
    let mut index: usize = 0;
    while index < part.len()
        invariant
            index <= part.len(),
            total == text@.len(),
            place + part@.len() <= total,
            forall|i: int| 0 <= i < index ==> text@[place + i] == part@[i],
        decreases part.len() - index,
    {
        if text[place + index] != part[index] {
            assert(text@.subrange(place as int, place + part@.len())[index as int]
                != part@[index as int]);
            return false;
        }
        index = index + 1;
    }
    assert(text@.subrange(place as int, place + part@.len()) =~= part@);
    true
}

/// Whether a text holds another.
pub fn holds_text(text: &str, part: &str) -> (yes: bool)
    ensures
        yes == contains_text(text@, part@),
{
    let chars = chars_of(text);
    let sought = chars_of(part);
    if sought.len() > chars.len() {
        return false;
    }
    let ends: usize = chars.len() - sought.len();
    let mut place: usize = 0;
    while place < ends
        invariant
            chars@ == text@,
            sought@ == part@,
            ends == chars@.len() - sought@.len(),
            place <= ends,
            forall|before: int|
                0 <= before < place ==> #[trigger] chars@.subrange(
                    before,
                    before + sought@.len(),
                ) != sought@,
        decreases ends - place,
    {
        if stands_at(&chars, &sought, place) {
            assert(text@.subrange(place as int, place + part@.len()) == part@);
            return true;
        }
        place = place + 1;
    }
    let last = stands_at(&chars, &sought, place);
    proof {
        if last {
            assert(text@.subrange(place as int, place + part@.len()) == part@);
        } else {
            assert forall|at: int| 0 <= at <= text@.len() - part@.len() implies #[trigger] text@.subrange(
                at,
                at + part@.len(),
            ) != part@ by {
                if at < place {
                    assert(chars@.subrange(at, at + sought@.len()) != sought@);
                }
            }
        }
    }
    last
}

/// A step on the way from a challenge to its answer.
#[derive(Clone, Copy, Debug, PartialEq, Eq, Structural)]
pub enum Digest401Step {
    Seek,
    Challenge,
    Increment,
    Parse,
    Consume,
    Close,
    Copy,
    ExtractCookies,
    PrepareCookies,
    PreparedParts,
    UpdateNonceCount,
    Ctime,
    Random,
    UpdateLastNonce,
    SetHeader,
    Send,
    AppendHistory,
    ReplaceRequest,
}

/// What the worker asks of the Python thread.
#[derive(Debug)]
pub enum Digest401Action {
    /// The request's body is to be rewound.
    Seek,
    /// The challenge is to be read from the response.
    Challenge,
    /// The count of challenges is to start anew.
    Reset401,
    /// The count of challenges is to be set.
    Increment401 { value: u32 },
    /// The challenge is to be taken apart.
    Parse { header: String },
    Consume,
    Close,
    Copy,
    ExtractCookies,
    PrepareCookies,
    BuildDigestHeader,
    Send,
    AppendHistory,
    ReplaceRequest,
}

/// What the Python thread answers.
#[derive(Debug)]
pub enum Digest401Reply {
    Ack,
    Header(String),
    /// The handler met an error, which it keeps.
    Failed,
}

impl WorkerPayload for Digest401Action {

}

impl WorkerPayload for Digest401Reply {

}

/// How the worker ended.
#[derive(Clone, Copy, Debug, PartialEq, Eq, Structural)]
pub enum Digest401Outcome {
    /// The challenge is not answered: the response goes back as it is.
    Original,
    /// The request was sent again.
    Sent,
    HandlerFailed,
    BridgeClosed(BridgeClosed),
}

/// Whether a challenge is answered: it speaks of digest authentication, and
/// fewer than two came before it.
///
/// Upper case counts as lower case. No letter outside ASCII turns into one of
/// the six letters of "digest" followed by the next of them.
pub open spec fn is_answered(header: Seq<char>, calls: u32) -> bool {
    contains_text(lowered(header), "digest"@) && calls < 2
}

/// The worker between a challenge and its answer.
pub struct Digest401Worker {
    /// The challenge, from when it was read until it is taken apart.
    pub header: Option<String>,
    /// How many challenges in a row came before.
    pub num_401_calls: u32,
}

/// What the worker goes by.
pub struct Digest401View {
    pub header: Option<Seq<char>>,
    pub num_401_calls: u32,
}

impl View for Digest401Worker {
    type V = Digest401View;

    open spec fn view(&self) -> Digest401View {
        Digest401View { header: optional_view(self.header), num_401_calls: self.num_401_calls }
    }
}

/// What the worker asks, by its contents.
pub enum ActionView {
    Seek,
    Challenge,
    Reset401,
    Increment401 { value: u32 },
    Parse { header: Seq<char> },
    Consume,
    Close,
    Copy,
    ExtractCookies,
    PrepareCookies,
    BuildDigestHeader,
    Send,
    AppendHistory,
    ReplaceRequest,
}

impl View for Digest401Action {
    type V = ActionView;

    open spec fn view(&self) -> ActionView {
        match *self {
            Digest401Action::Seek => ActionView::Seek,
            Digest401Action::Challenge => ActionView::Challenge,
            Digest401Action::Reset401 => ActionView::Reset401,
            Digest401Action::Increment401 { value } => ActionView::Increment401 { value },
            Digest401Action::Parse { header } => ActionView::Parse { header: header@ },
            Digest401Action::Consume => ActionView::Consume,
            Digest401Action::Close => ActionView::Close,
            Digest401Action::Copy => ActionView::Copy,
            Digest401Action::ExtractCookies => ActionView::ExtractCookies,
            Digest401Action::PrepareCookies => ActionView::PrepareCookies,
            Digest401Action::BuildDigestHeader => ActionView::BuildDigestHeader,
            Digest401Action::Send => ActionView::Send,
            Digest401Action::AppendHistory => ActionView::AppendHistory,
            Digest401Action::ReplaceRequest => ActionView::ReplaceRequest,
        }
    }
}

/// What the Python thread answers, by its contents.
pub enum ReplyView {
    Ack,
    Header(Seq<char>),
    Failed,
}

impl View for Digest401Reply {
    type V = ReplyView;

    open spec fn view(&self) -> ReplyView {
        match *self {
            Digest401Reply::Ack => ReplyView::Ack,
            Digest401Reply::Header(text) => ReplyView::Header(text@),
            Digest401Reply::Failed => ReplyView::Failed,
        }
    }
}

/// What an answer says, or which end of the bridge is gone.
pub open spec fn reply_view(reply: Result<Digest401Reply, BridgeClosed>) -> Result<
    ReplyView,
    BridgeClosed,
> {
    match reply {
        Ok(reply) => Ok(reply@),
        Err(closed) => Err(closed),
    }
}

impl Digest401View {
    /// Whether the challenge that was read is answered.
    pub open spec fn answers(self) -> bool {
        match self.header {
            Some(header) => is_answered(header, self.num_401_calls),
            None => false,
        }
    }

    /// Whether a step can be taken: the challenge is counted and taken apart
    /// only after it was read.
    pub open spec fn can_take(self, step: Digest401Step) -> bool {
        (step is Increment || step is Parse) ==> self.header is Some
    }

    /// What a step asks of the Python thread.
    pub open spec fn action(self, step: Digest401Step) -> Option<ActionView> {
        match step {
            Digest401Step::Seek => Some(ActionView::Seek),
            Digest401Step::Challenge => Some(ActionView::Challenge),
            Digest401Step::Increment => if self.answers() {
                Some(ActionView::Increment401 { value: (self.num_401_calls + 1) as u32 })
            } else {
                Some(ActionView::Reset401)
            },
            Digest401Step::Parse => match self.header {
                Some(header) => Some(ActionView::Parse { header }),
                None => None,
            },
            Digest401Step::Consume => Some(ActionView::Consume),
            Digest401Step::Close => Some(ActionView::Close),
            Digest401Step::Copy => Some(ActionView::Copy),
            Digest401Step::ExtractCookies => Some(ActionView::ExtractCookies),
            Digest401Step::PrepareCookies => Some(ActionView::PrepareCookies),
            Digest401Step::PreparedParts => Some(ActionView::BuildDigestHeader),
            Digest401Step::UpdateNonceCount => None,
            Digest401Step::Ctime => None,
            Digest401Step::Random => None,
            Digest401Step::UpdateLastNonce => None,
            Digest401Step::SetHeader => None,
            Digest401Step::Send => Some(ActionView::Send),
            Digest401Step::AppendHistory => Some(ActionView::AppendHistory),
            Digest401Step::ReplaceRequest => Some(ActionView::ReplaceRequest),
        }
    }

    /// What the worker goes by once a step's action was handed over.
    pub open spec fn begun(self, step: Digest401Step) -> Digest401View {
        if step is Parse {
            Digest401View { header: None, ..self }
        } else {
            self
        }
    }

    /// How a step ends the worker, if it does.
    pub open spec fn ended(self, step: Digest401Step, reply: Result<ReplyView, BridgeClosed>) -> Option<
        Digest401Outcome,
    > {
        match reply {
            Err(closed) => Some(Digest401Outcome::BridgeClosed(closed)),
            Ok(ReplyView::Failed) => Some(Digest401Outcome::HandlerFailed),
            Ok(ReplyView::Header(_)) => if step is Challenge {
                None
            } else {
                Some(Digest401Outcome::HandlerFailed)
            },
            Ok(ReplyView::Ack) => if step is Challenge {
                Some(Digest401Outcome::HandlerFailed)
            } else if step is Increment && !self.answers() {
                Some(Digest401Outcome::Original)
            } else {
                None
            },
        }
    }

    /// What the worker goes by after a step's answer.
    pub open spec fn after(self, step: Digest401Step, reply: Result<ReplyView, BridgeClosed>) -> Digest401View {
        match reply {
            Ok(ReplyView::Header(text)) => if step is Challenge {
                Digest401View { header: Some(text), ..self }
            } else {
                self
            },
            _ => self,
        }
    }
}

impl Digest401Worker {
    /// A worker that has not read the challenge yet.
    pub fn new(num_401_calls: u32) -> (worker: Self)
        ensures
            worker@ == (Digest401View { header: None, num_401_calls }),
    {
        Digest401Worker { header: None, num_401_calls }
    }

    /// Whether the challenge that was read is answered.
    fn decides_to_answer(&self) -> (yes: bool)
        ensures
            yes == self@.answers(),
    {
        match &self.header {
            Some(header) => {
                let lower = lower_text(header.as_str());
                holds_text(lower.as_str(), "digest") && self.num_401_calls < 2
            },
            None => false,
        }
    }

    /// What a step asks of the Python thread.
    pub fn begin(&mut self, step: Digest401Step) -> (action: Option<Digest401Action>)
        requires
            old(self)@.can_take(step),
        ensures
            match action {
                Some(action) => old(self)@.action(step) == Some(action@),
                None => old(self)@.action(step) is None,
            },
            final(self)@ == old(self)@.begun(step),
    {
        match step {
            Digest401Step::Seek => Some(Digest401Action::Seek),
            Digest401Step::Challenge => Some(Digest401Action::Challenge),
            Digest401Step::Increment => if self.decides_to_answer() {
                Some(Digest401Action::Increment401 { value: self.num_401_calls + 1 })
            } else {
                Some(Digest401Action::Reset401)
            },
            Digest401Step::Parse => match self.header.take() {
                Some(header) => Some(Digest401Action::Parse { header }),
                None => None,
            },
            Digest401Step::Consume => Some(Digest401Action::Consume),
            Digest401Step::Close => Some(Digest401Action::Close),
            Digest401Step::Copy => Some(Digest401Action::Copy),
            Digest401Step::ExtractCookies => Some(Digest401Action::ExtractCookies),
            Digest401Step::PrepareCookies => Some(Digest401Action::PrepareCookies),
            Digest401Step::PreparedParts => Some(Digest401Action::BuildDigestHeader),
            Digest401Step::UpdateNonceCount
            | Digest401Step::Ctime
            | Digest401Step::Random
            | Digest401Step::UpdateLastNonce
            | Digest401Step::SetHeader => None,
            Digest401Step::Send => Some(Digest401Action::Send),
            Digest401Step::AppendHistory => Some(Digest401Action::AppendHistory),
            Digest401Step::ReplaceRequest => Some(Digest401Action::ReplaceRequest),
        }
    }

    /// How the worker ends once every step was taken: the request was sent
    /// again.
    pub fn complete(self) -> (outcome: Digest401Outcome)
        ensures
            outcome == Digest401Outcome::Sent,
    {
        Digest401Outcome::Sent
    }

    /// Goes on after a step's answer, or ends.
    pub fn digest_401_worker(
        &mut self,
        step: Digest401Step,
        reply: Result<Digest401Reply, BridgeClosed>,
    ) -> (ended: Option<Digest401Outcome>)
        ensures
            ended == old(self)@.ended(step, reply_view(reply)),
            final(self)@ == old(self)@.after(step, reply_view(reply)),
    {
        match reply {
            Err(closed) => Some(Digest401Outcome::BridgeClosed(closed)),
            Ok(Digest401Reply::Failed) => Some(Digest401Outcome::HandlerFailed),
            Ok(Digest401Reply::Header(text)) => match step {
                Digest401Step::Challenge => {
                    self.header = Some(text);
                    None
                },
                _ => Some(Digest401Outcome::HandlerFailed),
            },
            Ok(Digest401Reply::Ack) => match step {
                Digest401Step::Challenge => Some(Digest401Outcome::HandlerFailed),
                Digest401Step::Increment => if self.decides_to_answer() {
                    None
                } else {
                    Some(Digest401Outcome::Original)
                },
                _ => None,
            },
        }
    }
}

/// What the Python thread holds while a challenge is answered.
pub struct OriginDigest401Owner {
    pub module: usize,
    pub subject: usize,
    pub response: usize,
    pub kwargs: usize,
    pub audit: usize,
    /// The copy of the request that is sent again.
    pub prepared: Option<usize>,
    /// The response to it.
    pub sent: Option<usize>,
    /// The first error that an action met.
    pub handler_error: Option<usize>,
}

/// What an action lacks.
#[derive(Clone, Copy, Debug, PartialEq, Eq, Structural)]
pub enum MissingPart {
    Request,
    Response,
}

impl MissingPart {
    /// What is missing, in words.
    pub open spec fn words(self) -> Seq<char> {
        match self {
            MissingPart::Request => "digest resend has no prepared request"@,
            MissingPart::Response => "digest resend has no response"@,
        }
    }

    /// What is missing, in words.
    pub fn message(&self) -> (text: String)
        ensures
            text@ == self.words(),
    {
        match self {
            MissingPart::Request => String::from_str("digest resend has no prepared request"),
            MissingPart::Response => String::from_str("digest resend has no response"),
        }
    }
}

/// Whether an action works on the copied request.
pub open spec fn needs_request(action: ActionView) -> bool {
    action is ExtractCookies || action is PrepareCookies || action is BuildDigestHeader
        || action is Send || action is ReplaceRequest
}

/// Whether an action works on the response to the copied request.
pub open spec fn needs_response(action: ActionView) -> bool {
    action is AppendHistory || action is ReplaceRequest
}

/// What an action lacks.
pub open spec fn missing_for(action: ActionView, prepared: Option<usize>, sent: Option<usize>) -> Option<
    MissingPart,
> {
    if needs_request(action) && prepared is None {
        Some(MissingPart::Request)
    } else if needs_response(action) && sent is None {
        Some(MissingPart::Response)
    } else {
        None
    }
}

impl OriginDigest401Owner {
    /// An owner at the start.
    pub fn new(module: usize, subject: usize, response: usize, kwargs: usize, audit: usize) -> (owner:
        Self)
        ensures
            owner == (OriginDigest401Owner {
                module,
                subject,
                response,
                kwargs,
                audit,
                prepared: None,
                sent: None,
                handler_error: None,
            }),
    {
        OriginDigest401Owner {
            module,
            subject,
            response,
            kwargs,
            audit,
            prepared: None,
            sent: None,
            handler_error: None,
        }
    }

    /// What an action lacks.
    pub fn missing_part(&self, action: &Digest401Action) -> (missing: Option<MissingPart>)
        ensures
            missing == missing_for(action@, self.prepared, self.sent),
    {
        let request = match action {
            Digest401Action::ExtractCookies
            | Digest401Action::PrepareCookies
            | Digest401Action::BuildDigestHeader
            | Digest401Action::Send
            | Digest401Action::ReplaceRequest => true,
            _ => false,
        };
        let response = match action {
            Digest401Action::AppendHistory | Digest401Action::ReplaceRequest => true,
            _ => false,
        };
        if request && self.prepared.is_none() {
            Some(MissingPart::Request)
        } else if response && self.sent.is_none() {
            Some(MissingPart::Response)
        } else {
            None
        }
    }

    /// Keeps the copied request.
    pub fn keep_prepared(&mut self, request: usize)
        ensures
            *final(self) == (OriginDigest401Owner { prepared: Some(request), ..*old(self) }),
    {
        self.prepared = Some(request);
    }

    /// Keeps the response to the copied request.
    pub fn keep_sent(&mut self, response: usize)
        ensures
            *final(self) == (OriginDigest401Owner { sent: Some(response), ..*old(self) }),
    {
        self.sent = Some(response);
    }

    /// Answers that an action failed; the first error is kept.
    pub fn store_digest_401_error(&mut self, error: usize) -> (reply: Digest401Reply)
        ensures
            reply is Failed,
            *final(self) == (OriginDigest401Owner {
                handler_error: match old(self).handler_error {
                    Some(first) => Some(first),
                    None => Some(error),
                },
                ..*old(self)
            }),
    {
        store_handler_error(&mut self.handler_error, error);
        Digest401Reply::Failed
    }
}

/// What the caller gets.
#[derive(Clone, Copy, Debug, PartialEq, Eq, Structural)]
pub enum Digest401Result {
    Response(usize),
    Raise(usize),
    LostResponse,
    LostError,
    Closed(BridgeClosed),
}

/// What the caller gets: the first error of an action before anything else.
pub open spec fn digest_401_result(
    response: usize,
    sent: Option<usize>,
    handler_error: Option<usize>,
    outcome: Digest401Outcome,
) -> Digest401Result {
    match handler_error {
        Some(error) => Digest401Result::Raise(error),
        None => match outcome {
            Digest401Outcome::Original => Digest401Result::Response(response),
            Digest401Outcome::Sent => match sent {
                Some(sent) => Digest401Result::Response(sent),
                None => Digest401Result::LostResponse,
            },
            Digest401Outcome::HandlerFailed => Digest401Result::LostError,
            Digest401Outcome::BridgeClosed(closed) => Digest401Result::Closed(closed),
        },
    }
}

impl OriginDigest401Owner {
    /// What the caller gets.
    pub fn finish(&self, outcome: Digest401Outcome) -> (result: Digest401Result)
        ensures
            result == digest_401_result(self.response, self.sent, self.handler_error, outcome),
    {
        match self.handler_error {
            Some(error) => Digest401Result::Raise(error),
            None => match outcome {
                Digest401Outcome::Original => Digest401Result::Response(self.response),
                Digest401Outcome::Sent => match self.sent {
                    Some(sent) => Digest401Result::Response(sent),
                    None => Digest401Result::LostResponse,
                },
                Digest401Outcome::HandlerFailed => Digest401Result::LostError,
                Digest401Outcome::BridgeClosed(closed) => Digest401Result::Closed(closed),
            },
        }
    }
}

impl Digest401Result {
    /// The message of a failure of the library's own.
    pub open spec fn words(self) -> Option<Seq<char>> {
        match self {
            Digest401Result::LostResponse => Some("digest resend lost its response"@),
            Digest401Result::LostError => Some(
                "digest 401 action failed without preserving its Python exception"@,
            ),
            Digest401Result::Closed(closed) => Some(closed.words()),
            _ => None,
        }
    }

    /// The message of a failure of the library's own.
    pub fn message(&self) -> (text: Option<String>)
        ensures
            optional_view(text) == self.words(),
    {
        match self {
            Digest401Result::LostResponse => Some(
                String::from_str("digest resend lost its response"),
            ),
            Digest401Result::LostError => Some(
                String::from_str(
                    "digest 401 action failed without preserving its Python exception",
                ),
            ),
            Digest401Result::Closed(closed) => Some(closed.message()),
            _ => None,
        }
    }
}

/// A worker's way through its steps: what it asked, and how it ended.
pub struct Course {
    pub asked: Seq<ActionView>,
    pub outcome: Digest401Outcome,
}

/// The way of a worker through steps, answered by the replies in turn. A worker
/// that is not answered finds the bridge closed.
pub open spec fn course(
    worker: Digest401View,
    steps: Seq<Digest401Step>,
    replies: Seq<Result<ReplyView, BridgeClosed>>,
) -> Course
    decreases steps.len(),
{
    if steps.len() == 0 {
        Course { asked: Seq::empty(), outcome: Digest401Outcome::Sent }
    } else {
        match worker.action(steps[0]) {
            None => course(worker.begun(steps[0]), steps.drop_first(), replies),
            Some(action) => {
                let reply = if replies.len() == 0 {
                    Err(BridgeClosed::ReplySender)
                } else {
                    replies[0]
                };
                let begun = worker.begun(steps[0]);
                match begun.ended(steps[0], reply) {
                    Some(outcome) => Course { asked: seq![action], outcome },
                    None => {
                        let rest = course(
                            begun.after(steps[0], reply),
                            steps.drop_first(),
                            replies.skip(1),
                        );
                        Course { asked: seq![action] + rest.asked, outcome: rest.outcome }
                    },
                }
            },
        }
    }
}

/// A challenge that does not speak of digest authentication, or that two others
/// came before, is never answered: the response goes back as it is, and nothing
/// but the count is touched.
pub proof fn law_unanswered_challenges_go_back(
    calls: u32,
    header: Seq<char>,
    rest: Seq<Digest401Step>,
    replies: Seq<Result<ReplyView, BridgeClosed>>,
)
    requires
        !is_answered(header, calls),
        replies.len() >= 3,
        replies[0] == Ok::<ReplyView, BridgeClosed>(ReplyView::Ack),
        replies[1] == Ok::<ReplyView, BridgeClosed>(ReplyView::Header(header)),
        replies[2] == Ok::<ReplyView, BridgeClosed>(ReplyView::Ack),
    ensures
        ({
            let steps = seq![
                Digest401Step::Seek,
                Digest401Step::Challenge,
                Digest401Step::Increment,
            ] + rest;
            let way = course(
                Digest401View { header: None, num_401_calls: calls },
                steps,
                replies,
            );
            &&& way.outcome == Digest401Outcome::Original
            &&& way.asked == seq![ActionView::Seek, ActionView::Challenge, ActionView::Reset401]
        }),
{
    let steps = seq![Digest401Step::Seek, Digest401Step::Challenge, Digest401Step::Increment]
        + rest;
    let start = Digest401View { header: None, num_401_calls: calls };
    let second = seq![Digest401Step::Challenge, Digest401Step::Increment] + rest;
    let third = seq![Digest401Step::Increment] + rest;
    assert(steps.drop_first() =~= second);
    assert(second.drop_first() =~= third);
    let read = Digest401View { header: Some(header), num_401_calls: calls };
    assert(start.after(Digest401Step::Challenge, replies[1]) == read);
    assert(replies.skip(1)[0] == replies[1]);
    assert(replies.skip(1).skip(1)[0] == replies[2]);
    reveal_with_fuel(course, 4);
    let last = course(read, third, replies.skip(1).skip(1));
    assert(last.asked =~= seq![ActionView::Reset401]);
    let middle = course(start, second, replies.skip(1));
    assert(middle.asked =~= seq![ActionView::Challenge, ActionView::Reset401]);
    assert(course(start, steps, replies).asked =~= seq![
        ActionView::Seek,
        ActionView::Challenge,
        ActionView::Reset401,
    ]);
}

/// The steps that only keep the books ask nothing of Python, and a failed
/// action ends the worker at once.
pub proof fn law_failed_actions_end_the_worker(
    worker: Digest401View,
    steps: Seq<Digest401Step>,
    replies: Seq<Result<ReplyView, BridgeClosed>>,
)
    requires
        steps.len() > 0,
        replies.len() > 0,
        worker.action(steps[0]) is Some,
        replies[0] == Ok::<ReplyView, BridgeClosed>(ReplyView::Failed),
    ensures
        course(worker, steps, replies).outcome == Digest401Outcome::HandlerFailed,
        course(worker, steps, replies).asked.len() == 1,
{
}

/// The action that a step asks for by its own name, where it asks for one and does
/// not depend on the challenge.
pub open spec fn own_action(step: Digest401Step) -> Seq<ActionView> {
    match step {
        Digest401Step::Seek => seq![ActionView::Seek],
        Digest401Step::Consume => seq![ActionView::Consume],
        Digest401Step::Close => seq![ActionView::Close],
        Digest401Step::Copy => seq![ActionView::Copy],
        Digest401Step::ExtractCookies => seq![ActionView::ExtractCookies],
        Digest401Step::PrepareCookies => seq![ActionView::PrepareCookies],
        Digest401Step::PreparedParts => seq![ActionView::BuildDigestHeader],
        Digest401Step::Send => seq![ActionView::Send],
        Digest401Step::AppendHistory => seq![ActionView::AppendHistory],
        Digest401Step::ReplaceRequest => seq![ActionView::ReplaceRequest],
        _ => Seq::empty(),
    }
}

/// The actions that a list of steps asks for.
pub open spec fn own_actions(steps: Seq<Digest401Step>) -> Seq<ActionView>
    decreases steps.len(),
{
    if steps.len() == 0 {
        Seq::empty()
    } else {
        own_action(steps[0]) + own_actions(steps.drop_first())
    }
}

/// Whether a step is done as soon as its action was answered.
pub open spec fn needs_no_challenge(step: Digest401Step) -> bool {
    !(step is Challenge || step is Increment || step is Parse)
}

/// Steps that do not depend on the challenge ask for their own actions, each once
/// and in order, and with every action answered the request counts as sent.
pub proof fn law_answered_steps_all_run(
    worker: Digest401View,
    steps: Seq<Digest401Step>,
    replies: Seq<Result<ReplyView, BridgeClosed>>,
)
    requires
        forall|index: int| 0 <= index < steps.len() ==> needs_no_challenge(#[trigger] steps[index]),
        replies.len() >= steps.len(),
        forall|index: int|
            0 <= index < replies.len() ==> #[trigger] replies[index] == Ok::<
                ReplyView,
                BridgeClosed,
            >(ReplyView::Ack),
    ensures
        course(worker, steps, replies).asked == own_actions(steps),
        course(worker, steps, replies).outcome is Sent,
    decreases steps.len(),
{
    if steps.len() > 0 {
        let rest = steps.drop_first();
        assert(needs_no_challenge(steps[0]));
        assert forall|index: int| 0 <= index < rest.len() implies needs_no_challenge(
            #[trigger] rest[index],
        ) by {
            assert(rest[index] == steps[index + 1]);
        }
        let begun = worker.begun(steps[0]);
        match worker.action(steps[0]) {
            None => {
                law_answered_steps_all_run(begun, rest, replies);
                assert(own_actions(steps) =~= own_actions(rest));
            },
            Some(action) => {
                assert(replies[0] == Ok::<ReplyView, BridgeClosed>(ReplyView::Ack));
                assert forall|index: int|
                    0 <= index < replies.skip(1).len() implies #[trigger] replies.skip(1)[index]
                    == Ok::<ReplyView, BridgeClosed>(ReplyView::Ack) by {
                    assert(replies.skip(1)[index] == replies[index + 1]);
                }
                law_answered_steps_all_run(begun.after(steps[0], replies[0]), rest, replies.skip(1));
            },
        }
    }
}

/// A challenge that is answered is counted once more, and the challenge that was
/// read is the one that is taken apart; the steps behind it then follow.
pub proof fn law_answered_challenges_are_counted_and_parsed(
    calls: u32,
    header: Seq<char>,
    rest: Seq<Digest401Step>,
    replies: Seq<Result<ReplyView, BridgeClosed>>,
)
    requires
        contains_text(lowered(header), "digest"@),
        calls < 2,
        replies.len() >= 3,
        replies[0] == Ok::<ReplyView, BridgeClosed>(ReplyView::Header(header)),
        replies[1] == Ok::<ReplyView, BridgeClosed>(ReplyView::Ack),
        replies[2] == Ok::<ReplyView, BridgeClosed>(ReplyView::Ack),
    ensures
        ({
            let steps = seq![
                Digest401Step::Challenge,
                Digest401Step::Increment,
                Digest401Step::Parse,
            ] + rest;
            let way = course(Digest401View { header: None, num_401_calls: calls }, steps, replies);
            let tail = course(
                Digest401View { header: None, num_401_calls: calls },
                rest,
                replies.skip(3),
            );
            &&& way.asked == seq![
                ActionView::Challenge,
                ActionView::Increment401 { value: (calls + 1) as u32 },
                ActionView::Parse { header },
            ] + tail.asked
            &&& way.outcome == tail.outcome
        }),
{
    let steps = seq![
        Digest401Step::Challenge,
        Digest401Step::Increment,
        Digest401Step::Parse,
    ] + rest;
    let first = steps.drop_first();
    let second = first.drop_first();
    let third = second.drop_first();
    assert(third =~= rest);
    assert(replies.skip(1).skip(1) =~= replies.skip(2));
    assert(replies.skip(2).skip(1) =~= replies.skip(3));
    let start = Digest401View { header: None, num_401_calls: calls };
    let read = Digest401View { header: Some(header), num_401_calls: calls };
    assert(replies.skip(1)[0] == replies[1]);
    assert(replies.skip(2)[0] == replies[2]);
    let tail = course(start, rest, replies.skip(3));
    assert(course(read, second, replies.skip(2)).asked =~= seq![ActionView::Parse { header }]
        + tail.asked);
    assert(course(read, first, replies.skip(1)).asked =~= seq![
        ActionView::Increment401 { value: (calls + 1) as u32 },
    ] + course(read, second, replies.skip(2)).asked);
    assert(course(start, steps, replies).asked =~= seq![ActionView::Challenge] + course(
        read,
        first,
        replies.skip(1),
    ).asked);
    assert(course(start, steps, replies).asked =~= seq![
        ActionView::Challenge,
        ActionView::Increment401 { value: (calls + 1) as u32 },
        ActionView::Parse { header },
    ] + tail.asked);
}

/// A challenge is answered where it speaks of digests, in whatever case, and the
/// thread was challenged less than twice before.
pub proof fn law_which_challenges_are_answered(header: Seq<char>, calls: u32)
    ensures
        is_answered(header, calls) ==> calls < 2,
        is_answered(header, calls) ==> exists|place: int|
            0 <= place <= lowered(header).len() - "digest"@.len() && #[trigger] lowered(
                header,
            ).subrange(place, place + "digest"@.len()) == "digest"@,
        contains_text(lowered(header), "digest"@) && calls < 2 ==> is_answered(header, calls),
{
}

/// A worker that the bridge leaves, and a reply that does not fit its step, end it
/// at once: only a challenge is answered with a header.
pub proof fn law_unfitting_replies_end_the_worker(
    worker: Digest401View,
    step: Digest401Step,
    closed: BridgeClosed,
    header: Seq<char>,
)
    ensures
        worker.ended(step, Err::<ReplyView, BridgeClosed>(closed)) == Some(
            Digest401Outcome::BridgeClosed(closed),
        ),
        worker.ended(step, Ok::<ReplyView, BridgeClosed>(ReplyView::Failed)) == Some(
            Digest401Outcome::HandlerFailed,
        ),
        worker.ended(step, Ok::<ReplyView, BridgeClosed>(ReplyView::Header(header))) is None
            <==> step is Challenge,
        step is Challenge ==> worker.ended(step, Ok::<ReplyView, BridgeClosed>(ReplyView::Ack))
            == Some(Digest401Outcome::HandlerFailed),
{
}

/// The first error of an action is raised, whatever the worker came to. Without
/// one, an unanswered challenge gives the response itself back, and an answered
/// one the response to the request that was sent again.
pub proof fn law_results_of_resending(
    response: usize,
    sent: usize,
    error: usize,
    other: Option<usize>,
    outcome: Digest401Outcome,
)
    ensures
        digest_401_result(response, other, Some(error), outcome) == Digest401Result::Raise(error),
        digest_401_result(response, other, None, Digest401Outcome::Original)
            == Digest401Result::Response(response),
        digest_401_result(response, Some(sent), None, Digest401Outcome::Sent)
            == Digest401Result::Response(sent),
        digest_401_result(response, None, None, Digest401Outcome::Sent) is LostResponse,
        digest_401_result(response, other, None, Digest401Outcome::HandlerFailed) is LostError,
        outcome matches Digest401Outcome::BridgeClosed(closed) ==> digest_401_result(
            response,
            other,
            None,
            outcome,
        ) == Digest401Result::Closed(closed),
{
}

/// Nothing is missing for an action exactly where the request that it works on was
/// copied and the response that it works on has come.
pub proof fn law_actions_need_their_parts(
    action: ActionView,
    prepared: Option<usize>,
    sent: Option<usize>,
)
    ensures
        action is ExtractCookies || action is PrepareCookies || action is BuildDigestHeader
            || action is Send ==> (missing_for(action, prepared, sent) is None <==> prepared
            is Some),
        action is AppendHistory ==> (missing_for(action, prepared, sent) is None <==> sent is Some),
        action is ReplaceRequest ==> (missing_for(action, prepared, sent) is None <==> prepared
            is Some && sent is Some),
        action is Seek || action is Challenge || action is Reset401 || action is Increment401
            || action is Parse || action is Consume || action is Close || action is Copy
            ==> missing_for(action, prepared, sent) is None,
        missing_for(action, prepared, sent) == Some(MissingPart::Request) ==> prepared is None,
        missing_for(action, prepared, sent) == Some(MissingPart::Response) ==> sent is None,
{
}

/// Each part that can be missing has its own words.
pub proof fn law_words_of_missing_part()
    ensures
        MissingPart::Request.words() == "digest resend has no prepared request"@,
        MissingPart::Response.words() == "digest resend has no response"@,
{
}

/// Each failed result has its own words.
pub proof fn law_words_of_digest401_result()
    ensures
        Digest401Result::LostResponse.words() == Some("digest resend lost its response"@),
        Digest401Result::LostError.words() == Some("digest 401 action failed without preserving its Python exception"@),
{
}

} // verus!
