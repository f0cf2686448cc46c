//! Reading a response: its content, in whole or in pieces, its text and its
//! JSON, in the order of Python's own code.

use vstd::prelude::*;
use vstd::string::StringExecFns;

use crate::errors::{derives_from, is_subclass, MappedName};
use crate::errors::stream_mappings;
use crate::heap::{both, Check, Heap};
use crate::response_state::{
    exact_operation, is_exact_operation, ResponseGlobal, ResponseMember, ResponseState,
};

verus! {

/// Something that is asked of a response.
#[derive(Clone, Copy, Debug, PartialEq, Eq, Structural)]
pub enum ResponseTask {
    IterContent,
    Content,
    ApparentEncoding,
    Text,
    Json,
    IterLines,
    RaiseForStatus,
    IsOk,
    Repr,
    Truth,
    IsRedirect,
    IsPermanentRedirect,
    NextRequest,
    GetState,
    SetState,
    Close,
}

/// A member that has to be unchanged, with the names that its code reads.
pub struct Requirement {
    pub member: ResponseMember,
    pub globals: Vec<ResponseGlobal>,
}

/// The names that reading in pieces leans on.
pub open spec fn iter_content_globals() -> Seq<ResponseGlobal> {
    seq![
        ResponseGlobal::IterSlices,
        ResponseGlobal::StreamDecodeResponseUnicode,
        ResponseGlobal::ProtocolError,
        ResponseGlobal::DecodeError,
        ResponseGlobal::ReadTimeoutError,
        ResponseGlobal::SslError,
        ResponseGlobal::ChunkedEncodingError,
        ResponseGlobal::ContentDecodingError,
        ResponseGlobal::ConnectionError,
        ResponseGlobal::RequestsSslError,
        ResponseGlobal::StreamConsumedError,
        ResponseGlobal::BoolType,
        ResponseGlobal::IntType,
        ResponseGlobal::HasAttr,
        ResponseGlobal::Cast,
        ResponseGlobal::BytesType,
        ResponseGlobal::TypeType,
        ResponseGlobal::IsInstance,
        ResponseGlobal::TypeError,
    ]
}

/// The names that the JSON of a response leans on.
pub open spec fn json_globals() -> Seq<ResponseGlobal> {
    seq![
        ResponseGlobal::Complexjson,
        ResponseGlobal::GuessJsonUtf,
        ResponseGlobal::JsonDecodeError,
        ResponseGlobal::RequestsJsonDecodeError,
        ResponseGlobal::UnicodeDecodeError,
        ResponseGlobal::Length,
    ]
}

/// The names that the check of a status leans on.
pub open spec fn status_globals() -> Seq<ResponseGlobal> {
    seq![
        ResponseGlobal::HttpError,
        ResponseGlobal::IsInstance,
        ResponseGlobal::BytesType,
        ResponseGlobal::UnicodeDecodeError,
    ]
}

/// What has to be unchanged for a task, in the order in which it is looked at.
pub open spec fn requirements(task: ResponseTask) -> Seq<(ResponseMember, Seq<ResponseGlobal>)> {
    match task {
        ResponseTask::IterContent => seq![(ResponseMember::IterContent, iter_content_globals())],
        ResponseTask::Content => seq![
            (
                ResponseMember::Content,
                seq![ResponseGlobal::ContentChunkSize, ResponseGlobal::RuntimeError],
            ),
            (ResponseMember::IterContent, Seq::empty()),
        ],
        ResponseTask::ApparentEncoding => seq![
            (ResponseMember::ApparentEncoding, seq![ResponseGlobal::Chardet]),
        ],
        ResponseTask::Text => seq![
            (
                ResponseMember::Text,
                seq![
                    ResponseGlobal::StrType,
                    ResponseGlobal::LookupError,
                    ResponseGlobal::TypeError,
                ],
            ),
        ],
        ResponseTask::Json => seq![
            (ResponseMember::Json, json_globals()),
            (ResponseMember::Content, Seq::empty()),
            (ResponseMember::Text, Seq::empty()),
        ],
        ResponseTask::IterLines => seq![(ResponseMember::IterLines, seq![ResponseGlobal::Cast])],
        ResponseTask::RaiseForStatus => seq![(ResponseMember::RaiseForStatus, status_globals())],
        ResponseTask::IsOk => seq![(ResponseMember::IsOk, seq![ResponseGlobal::HttpError])],
        ResponseTask::Repr => seq![(ResponseMember::Repr, Seq::empty())],
        ResponseTask::Truth => seq![
            (ResponseMember::Bool, Seq::empty()),
            (ResponseMember::IsOk, seq![ResponseGlobal::HttpError]),
        ],
        ResponseTask::IsRedirect => seq![
            (ResponseMember::IsRedirect, seq![ResponseGlobal::RedirectStatuses]),
        ],
        ResponseTask::IsPermanentRedirect => seq![
            (ResponseMember::IsPermanentRedirect, seq![ResponseGlobal::Codes]),
        ],
        ResponseTask::NextRequest => seq![(ResponseMember::NextRequest, Seq::empty())],
        ResponseTask::GetState => seq![(ResponseMember::GetState, seq![ResponseGlobal::GetAttr])],
        ResponseTask::SetState => seq![(ResponseMember::SetState, seq![ResponseGlobal::SetAttr])],
        ResponseTask::Close => seq![(ResponseMember::Close, seq![ResponseGlobal::GetAttr])],
    }
}

/// What the requirements of a list say.
pub open spec fn requirement_views(list: Seq<Requirement>) -> Seq<
    (ResponseMember, Seq<ResponseGlobal>),
> {
    list.map_values(|requirement: Requirement| (requirement.member, requirement.globals@))
}

/// What has to be unchanged for a task.
fn requirement_list(task: ResponseTask) -> (list: Vec<Requirement>)
    ensures
        requirement_views(list@) == requirements(task),
{
    let list: Vec<Requirement> = match task {
        ResponseTask::IterContent => {
            let globals: Vec<ResponseGlobal> = vec![
                ResponseGlobal::IterSlices,
                ResponseGlobal::StreamDecodeResponseUnicode,
                ResponseGlobal::ProtocolError,
                ResponseGlobal::DecodeError,
                ResponseGlobal::ReadTimeoutError,
                ResponseGlobal::SslError,
                ResponseGlobal::ChunkedEncodingError,
                ResponseGlobal::ContentDecodingError,
                ResponseGlobal::ConnectionError,
                ResponseGlobal::RequestsSslError,
                ResponseGlobal::StreamConsumedError,
                ResponseGlobal::BoolType,
                ResponseGlobal::IntType,
                ResponseGlobal::HasAttr,
                ResponseGlobal::Cast,
                ResponseGlobal::BytesType,
                ResponseGlobal::TypeType,
                ResponseGlobal::IsInstance,
                ResponseGlobal::TypeError,
            ];
            assert(globals@ =~= iter_content_globals());
            vec![Requirement { member: ResponseMember::IterContent, globals }]
        },
        ResponseTask::Content => {
            let globals: Vec<ResponseGlobal> = vec![
                ResponseGlobal::ContentChunkSize,
                ResponseGlobal::RuntimeError,
            ];
            assert(globals@ =~= seq![
                ResponseGlobal::ContentChunkSize,
                ResponseGlobal::RuntimeError,
            ]);
            let none: Vec<ResponseGlobal> = Vec::new();
            assert(none@ =~= Seq::<ResponseGlobal>::empty());
            vec![
                Requirement { member: ResponseMember::Content, globals },
                Requirement { member: ResponseMember::IterContent, globals: none },
            ]
        },
        ResponseTask::ApparentEncoding => vec![
            one(ResponseMember::ApparentEncoding, ResponseGlobal::Chardet),
        ],
        ResponseTask::Text => {
            let globals: Vec<ResponseGlobal> = vec![
                ResponseGlobal::StrType,
                ResponseGlobal::LookupError,
                ResponseGlobal::TypeError,
            ];
            assert(globals@ =~= seq![
                ResponseGlobal::StrType,
                ResponseGlobal::LookupError,
                ResponseGlobal::TypeError,
            ]);
            vec![Requirement { member: ResponseMember::Text, globals }]
        },
        ResponseTask::Json => {
            let globals: Vec<ResponseGlobal> = vec![
                ResponseGlobal::Complexjson,
                ResponseGlobal::GuessJsonUtf,
                ResponseGlobal::JsonDecodeError,
                ResponseGlobal::RequestsJsonDecodeError,
                ResponseGlobal::UnicodeDecodeError,
                ResponseGlobal::Length,
            ];
            assert(globals@ =~= json_globals());
            vec![
                Requirement { member: ResponseMember::Json, globals },
                alone(ResponseMember::Content),
                alone(ResponseMember::Text),
            ]
        },
        ResponseTask::IterLines => vec![one(ResponseMember::IterLines, ResponseGlobal::Cast)],
        ResponseTask::RaiseForStatus => {
            let globals: Vec<ResponseGlobal> = vec![
                ResponseGlobal::HttpError,
                ResponseGlobal::IsInstance,
                ResponseGlobal::BytesType,
                ResponseGlobal::UnicodeDecodeError,
            ];
            assert(globals@ =~= status_globals());
            vec![Requirement { member: ResponseMember::RaiseForStatus, globals }]
        },
        ResponseTask::IsOk => vec![one(ResponseMember::IsOk, ResponseGlobal::HttpError)],
        ResponseTask::Repr => vec![alone(ResponseMember::Repr)],
        ResponseTask::Truth => vec![
            alone(ResponseMember::Bool),
            one(ResponseMember::IsOk, ResponseGlobal::HttpError),
        ],
        ResponseTask::IsRedirect => vec![
            one(ResponseMember::IsRedirect, ResponseGlobal::RedirectStatuses),
        ],
        ResponseTask::IsPermanentRedirect => vec![
            one(ResponseMember::IsPermanentRedirect, ResponseGlobal::Codes),
        ],
        ResponseTask::NextRequest => vec![alone(ResponseMember::NextRequest)],
        ResponseTask::GetState => vec![one(ResponseMember::GetState, ResponseGlobal::GetAttr)],
        ResponseTask::SetState => vec![one(ResponseMember::SetState, ResponseGlobal::SetAttr)],
        ResponseTask::Close => vec![one(ResponseMember::Close, ResponseGlobal::GetAttr)],
    };
    assert(requirement_views(list@) =~= requirements(task));
    list
}

/// A member on its own.
fn alone(member: ResponseMember) -> (requirement: Requirement)
    ensures
        requirement.member == member,
        requirement.globals@ == Seq::<ResponseGlobal>::empty(),
{
    Requirement { member, globals: Vec::new() }
}

/// A member with one name.
fn one(member: ResponseMember, global: ResponseGlobal) -> (requirement: Requirement)
    ensures
        requirement.member == member,
        requirement.globals@ == seq![global],
{
    let globals: Vec<ResponseGlobal> = vec![global];
    assert(globals@ =~= seq![global]);
    Requirement { member, globals }
}

/// Whether every member of a list is unchanged, looked at in order.
pub open spec fn all_exact(
    heap: Heap,
    state: ResponseState,
    subject: usize,
    list: Seq<(ResponseMember, Seq<ResponseGlobal>)>,
) -> Check
    decreases list.len(),
{
    if list.len() == 0 {
        Ok(true)
    } else {
        both(
            is_exact_operation(heap, state, subject, list[0].0, list[0].1),
            all_exact(heap, state, subject, list.drop_first()),
        )
    }
}

/// Whether a task is carried out natively.
pub open spec fn is_native(heap: Heap, state: ResponseState, subject: usize, task: ResponseTask) -> Check {
    all_exact(heap, state, subject, requirements(task))
}

/// Whether a task is carried out natively.
pub fn task_is_native(heap: &Heap, state: &ResponseState, subject: usize, task: ResponseTask) -> (check:
    Check)
    requires
        state.well_formed(),
    ensures
        check == is_native(*heap, *state, subject, task),
{
    let list = requirement_list(task);
    let ghost views = requirement_views(list@);
    let mut index: usize = 0;
    assert(views.skip(0) =~= views);
    while index < list.len()
        invariant
            index <= list.len(),
            state.well_formed(),
            views == requirement_views(list@),
            all_exact(*heap, *state, subject, views) == all_exact(
                *heap,
                *state,
                subject,
                views.skip(index as int),
            ),
            is_native(*heap, *state, subject, task) == all_exact(*heap, *state, subject, views),
        decreases list.len() - index,
    {
        assert(views.skip(index as int).drop_first() =~= views.skip(index + 1));
        assert(views.skip(index as int)[0] == views[index as int]);
        match exact_operation(heap, state, subject, list[index].member, &list[index].globals) {
            Ok(true) => {},
            other => {
                return other;
            },
        }
        index = index + 1;
    }
    Ok(true)
}

/// Whether a size can be read in.
pub open spec fn is_size(heap: Heap, value: usize) -> bool {
    heap.is_none_value(value) || match heap.at(value) {
        Some(found) => derives_from(heap, found.class, heap.intrinsics.int),
        None => false,
    }
}

/// Whether a size can be read in: `None` or a number.
pub fn chunk_size_is_valid(heap: &Heap, value: usize) -> (valid: bool)
    ensures
        valid == is_size(*heap, value),
{
    heap.none_value(value) || match heap.get(value) {
        Some(found) => is_subclass(heap, found.class, heap.intrinsics.int),
        None => false,
    }
}

/// The message about a size that is no number, which shows its type, if that
/// can be shown.
pub fn invalid_chunk_size(shown: Option<&str>) -> (text: String)
    ensures
        text@ == "chunk_size must be an int, it is instead a "@ + (match shown {
            Some(shown) => shown@,
            None => "<unknown type>"@,
        }) + "."@,
{
    let mut text = String::from_str("chunk_size must be an int, it is instead a ");
    match shown {
        Some(shown) => {
            text.append(shown);
        },
        None => {
            text.append("<unknown type>");
        },
    }
    text.append(".");
    text
}

/// How the pieces of a response are read.
#[derive(Clone, Copy, Debug, PartialEq, Eq, Structural)]
pub enum PiecesPlan {
    /// The stream was read before, and its content is gone.
    StreamConsumed,
    /// The size is no number.
    InvalidSize,
    /// The content is there: it is cut into slices.
    Slices,
    /// The stream is read.
    Stream,
}

/// How the pieces of a response are read.
pub fn native_iter_content(consumed: bool, content_is_flag: bool, size_is_valid: bool) -> (plan:
    PiecesPlan)
    ensures
        plan == (if consumed && content_is_flag {
            PiecesPlan::StreamConsumed
        } else if !size_is_valid {
            PiecesPlan::InvalidSize
        } else if consumed {
            PiecesPlan::Slices
        } else {
            PiecesPlan::Stream
        }),
{
    if consumed && content_is_flag {
        PiecesPlan::StreamConsumed
    } else if !size_is_valid {
        PiecesPlan::InvalidSize
    } else if consumed {
        PiecesPlan::Slices
    } else {
        PiecesPlan::Stream
    }
}

/// Where the pieces come from.
#[derive(Clone, Copy, Debug, PartialEq, Eq, Structural)]
pub enum ContentSource {
    Unstarted,
    /// An iterator over the raw stream.
    Stream(usize),
    /// Reads of the raw stream.
    Read,
    Done,
}

/// What the iterator over pieces asks of Python.
#[derive(Clone, Copy, Debug, PartialEq, Eq, Structural)]
pub enum PieceCall {
    /// Whether the raw stream can be iterated over.
    CheckStream,
    /// An iterator over the raw stream, decoded.
    OpenStream,
    /// The next piece of the iterator.
    NextOf(usize),
    /// The next read of the raw stream.
    ReadRaw,
    /// The response is to be marked as consumed.
    MarkConsumed,
}

/// What Python answers.
#[derive(Clone, Copy, Debug, PartialEq, Eq, Structural)]
pub enum PieceAnswer {
    Yes,
    No,
    /// An iterator, or a piece that Python takes for true.
    Object(usize),
    /// The iterator is at its end, or the piece is empty.
    Nothing,
    Done,
    Raised(usize),
}

/// What the iterator over pieces does next.
#[derive(Clone, Copy, Debug, PartialEq, Eq, Structural)]
pub enum PieceStep {
    Call(PieceCall),
    Yield(usize),
    End,
    Raise(usize),
    /// An error of the stream, which is wrapped before it is raised.
    RaiseWrapped(usize),
    /// An answer that does not belong to the call.
    Confused,
}

/// The iterator over the pieces of a response.
#[derive(Clone, Copy, Debug, PartialEq, Eq, Structural)]
pub struct NativeContentIterator {
    pub source: ContentSource,
}

/// The first call for the next piece.
pub open spec fn first_call(source: ContentSource) -> PieceStep {
    match source {
        ContentSource::Unstarted => PieceStep::Call(PieceCall::CheckStream),
        ContentSource::Stream(iterator) => PieceStep::Call(PieceCall::NextOf(iterator)),
        ContentSource::Read => PieceStep::Call(PieceCall::ReadRaw),
        ContentSource::Done => PieceStep::End,
    }
}

/// Where the pieces come from after an answer.
pub open spec fn source_after(source: ContentSource, call: PieceCall, answer: PieceAnswer) -> ContentSource {
    match (call, answer) {
        (PieceCall::CheckStream, PieceAnswer::No) => ContentSource::Read,
        (PieceCall::OpenStream, PieceAnswer::Object(iterator)) => ContentSource::Stream(iterator),
        (PieceCall::MarkConsumed, PieceAnswer::Done) => ContentSource::Done,
        _ => source,
    }
}

/// What the iterator does after an answer.
pub open spec fn piece_step(call: PieceCall, answer: PieceAnswer) -> PieceStep {
    match (call, answer) {
        (PieceCall::NextOf(_), PieceAnswer::Raised(error)) => PieceStep::RaiseWrapped(error),
        (_, PieceAnswer::Raised(error)) => PieceStep::Raise(error),
        (PieceCall::CheckStream, PieceAnswer::Yes) => PieceStep::Call(PieceCall::OpenStream),
        (PieceCall::CheckStream, PieceAnswer::No) => PieceStep::Call(PieceCall::ReadRaw),
        (PieceCall::OpenStream, PieceAnswer::Object(iterator)) => PieceStep::Call(
            PieceCall::NextOf(iterator),
        ),
        (PieceCall::NextOf(_), PieceAnswer::Object(piece)) => PieceStep::Yield(piece),
        (PieceCall::NextOf(_), PieceAnswer::Nothing) => PieceStep::Call(PieceCall::MarkConsumed),
        (PieceCall::ReadRaw, PieceAnswer::Object(piece)) => PieceStep::Yield(piece),
        (PieceCall::ReadRaw, PieceAnswer::Nothing) => PieceStep::Call(PieceCall::MarkConsumed),
        (PieceCall::MarkConsumed, PieceAnswer::Done) => PieceStep::End,
        _ => PieceStep::Confused,
    }
}

impl NativeContentIterator {
    /// An iterator that was not started.
    pub fn new() -> (iterator: Self)
        ensures
            iterator.source == ContentSource::Unstarted,
    {
        NativeContentIterator { source: ContentSource::Unstarted }
    }

    /// Begins with the next piece.
    pub fn begin(&self) -> (step: PieceStep)
        ensures
            step == first_call(self.source),
    {
        match self.source {
            ContentSource::Unstarted => PieceStep::Call(PieceCall::CheckStream),
            ContentSource::Stream(iterator) => PieceStep::Call(PieceCall::NextOf(iterator)),
            ContentSource::Read => PieceStep::Call(PieceCall::ReadRaw),
            ContentSource::Done => PieceStep::End,
        }
    }

    /// Goes on after an answer.
    pub fn proceed(&mut self, call: PieceCall, answer: PieceAnswer) -> (step: PieceStep)
        ensures
            step == piece_step(call, answer),
            final(self).source == source_after(old(self).source, call, answer),
    {
        match (call, answer) {
            (PieceCall::NextOf(_), PieceAnswer::Raised(error)) => PieceStep::RaiseWrapped(error),
            (_, PieceAnswer::Raised(error)) => PieceStep::Raise(error),
            (PieceCall::CheckStream, PieceAnswer::Yes) => PieceStep::Call(PieceCall::OpenStream),
            (PieceCall::CheckStream, PieceAnswer::No) => {
                self.source = ContentSource::Read;
                PieceStep::Call(PieceCall::ReadRaw)
            },
            (PieceCall::OpenStream, PieceAnswer::Object(iterator)) => {
                self.source = ContentSource::Stream(iterator);
                PieceStep::Call(PieceCall::NextOf(iterator))
            },
            (PieceCall::NextOf(_), PieceAnswer::Object(piece)) => PieceStep::Yield(piece),
            (PieceCall::NextOf(_), PieceAnswer::Nothing) => PieceStep::Call(
                PieceCall::MarkConsumed,
            ),
            (PieceCall::ReadRaw, PieceAnswer::Object(piece)) => PieceStep::Yield(piece),
            (PieceCall::ReadRaw, PieceAnswer::Nothing) => PieceStep::Call(PieceCall::MarkConsumed),
            (PieceCall::MarkConsumed, PieceAnswer::Done) => {
                self.source = ContentSource::Done;
                PieceStep::End
            },
            _ => PieceStep::Confused,
        }
    }

    /// Closes the iterator: an iterator over the raw stream is to be closed.
    pub fn close(&mut self) -> (stream: Option<usize>)
        ensures
            final(self).source == ContentSource::Done,
            stream == (match old(self).source {
                ContentSource::Stream(iterator) => Some(iterator),
                _ => None,
            }),
    {
        let stream = match self.source {
            ContentSource::Stream(iterator) => Some(iterator),
            _ => None,
        };
        self.source = ContentSource::Done;
        stream
    }
}

/// An iterator that came to its end, or was closed, asks nothing more of
/// Python; and it comes to its end only once the response is marked.
pub proof fn law_the_end_is_marked_and_final(source: ContentSource, call: PieceCall, answer: PieceAnswer)
    ensures
        first_call(ContentSource::Done) == PieceStep::End,
        piece_step(call, answer) == PieceStep::End ==> call == PieceCall::MarkConsumed
            && source_after(source, call, answer) == ContentSource::Done,
        source != ContentSource::Done && source_after(source, call, answer)
            == ContentSource::Done ==> call == PieceCall::MarkConsumed,
{
}

/// A step of wrapping an error of the stream. The classes that are wrapped are
/// tried in order; a place is that of one of them.
#[derive(Clone, Copy, Debug, PartialEq, Eq, Structural)]
pub enum WrapStep {
    /// The name of the class at this place is looked up.
    FindSource(usize),
    /// Whether Python finds the error to be an instance of it.
    Test(usize),
    /// The name of the class that wraps it is looked up.
    FindTarget(usize),
    /// That class is called with the error.
    Wrap(usize),
    /// The error is raised as it is.
    Original,
    /// A name is not defined.
    Undefined(MappedName),
    /// The error of the test is raised.
    RaiseCurrent,
}

/// What Python answers to a step of wrapping.
#[derive(Clone, Copy, Debug, PartialEq, Eq, Structural)]
pub enum WrapAnswer {
    Found,
    Missing,
    Yes,
    No,
    Raised,
}

/// The step after an answer. What has ended stays as it is.
pub open spec fn wrap_after(step: WrapStep, answer: WrapAnswer) -> WrapStep {
    match (step, answer) {
        (WrapStep::Wrap(_), _) => step,
        (WrapStep::Original, _) => step,
        (WrapStep::Undefined(_), _) => step,
        (WrapStep::FindSource(place), WrapAnswer::Found) => WrapStep::Test(place),
        (WrapStep::FindSource(place), WrapAnswer::Missing) => if place < 4 {
            WrapStep::Undefined(stream_mappings()[place as int].0)
        } else {
            WrapStep::RaiseCurrent
        },
        (WrapStep::Test(place), WrapAnswer::Yes) => WrapStep::FindTarget(place),
        (WrapStep::Test(place), WrapAnswer::No) => if place < 3 {
            WrapStep::FindSource((place + 1) as usize)
        } else {
            WrapStep::Original
        },
        (WrapStep::FindTarget(place), WrapAnswer::Found) => WrapStep::Wrap(place),
        (WrapStep::FindTarget(place), WrapAnswer::Missing) => if place < 4 {
            WrapStep::Undefined(stream_mappings()[place as int].1)
        } else {
            WrapStep::RaiseCurrent
        },
        _ => WrapStep::RaiseCurrent,
    }
}

/// The class at a place that is wrapped, and the class that wraps it.
fn stream_mapping(place: usize) -> (names: Option<(MappedName, MappedName)>)
    ensures
        names == (if place < 4 {
            Some(stream_mappings()[place as int])
        } else {
            None
        }),
{
    if place == 0 {
        Some((MappedName::ProtocolError, MappedName::ChunkedEncodingError))
    } else if place == 1 {
        Some((MappedName::DecodeError, MappedName::ContentDecodingError))
    } else if place == 2 {
        Some((MappedName::ReadTimeoutError, MappedName::ConnectionError))
    } else if place == 3 {
        Some((MappedName::SslError, MappedName::RequestsSslError))
    } else {
        None
    }
}

impl WrapStep {
    /// The first step.
    pub fn first() -> (step: Self)
        ensures
            step == WrapStep::FindSource(0),
    {
        WrapStep::FindSource(0)
    }

    /// The name that is looked up.
    pub fn wanted(self) -> (name: Option<MappedName>)
        ensures
            name == (match self {
                WrapStep::FindSource(place) => if place < 4 {
                    Some(stream_mappings()[place as int].0)
                } else {
                    None
                },
                WrapStep::FindTarget(place) => if place < 4 {
                    Some(stream_mappings()[place as int].1)
                } else {
                    None
                },
                _ => None,
            }),
    {
        match self {
            WrapStep::FindSource(place) => match stream_mapping(place) {
                Some((source, _)) => Some(source),
                None => None,
            },
            WrapStep::FindTarget(place) => match stream_mapping(place) {
                Some((_, target)) => Some(target),
                None => None,
            },
            _ => None,
        }
    }

    /// The step after an answer.
    pub fn wrap_stream_error(self, answer: WrapAnswer) -> (next: Self)
        ensures
            next == wrap_after(self, answer),
    {
        match (self, answer) {
            (WrapStep::Wrap(_), _) => self,
            (WrapStep::Original, _) => self,
            (WrapStep::Undefined(_), _) => self,
            (WrapStep::FindSource(place), WrapAnswer::Found) => WrapStep::Test(place),
            (WrapStep::Test(place), WrapAnswer::Yes) => WrapStep::FindTarget(place),
            (WrapStep::Test(place), WrapAnswer::No) => if place < 3 {
                WrapStep::FindSource(place + 1)
            } else {
                WrapStep::Original
            },
            (WrapStep::FindTarget(place), WrapAnswer::Found) => WrapStep::Wrap(place),
            (WrapStep::FindSource(_), WrapAnswer::Missing) | (
                WrapStep::FindTarget(_),
                WrapAnswer::Missing,
            ) => match self.wanted() {
                Some(name) => WrapStep::Undefined(name),
                None => WrapStep::RaiseCurrent,
            },
            _ => WrapStep::RaiseCurrent,
        }
    }
}

/// Python's answer to a step, where all names are defined and `instances` says
/// of which of the classes the error is an instance.
pub open spec fn wrap_answer(instances: Seq<bool>, step: WrapStep) -> WrapAnswer {
    match step {
        WrapStep::Test(place) => if instances[place as int] {
            WrapAnswer::Yes
        } else {
            WrapAnswer::No
        },
        _ => WrapAnswer::Found,
    }
}

/// Where wrapping stands after a number of steps.
pub open spec fn wrap_course(instances: Seq<bool>, step: WrapStep, limit: nat) -> WrapStep
    decreases limit,
{
    if limit == 0 {
        step
    } else {
        wrap_course(
            instances,
            wrap_after(step, wrap_answer(instances, step)),
            (limit - 1) as nat,
        )
    }
}

/// The first class that an error of the stream is an instance of decides what
/// wraps it; one that is an instance of none is raised as it is.
pub proof fn law_the_first_class_wraps(instances: Seq<bool>)
    requires
        instances.len() == 4,
    ensures
        wrap_course(instances, WrapStep::FindSource(0), 9) == (if instances[0] {
            WrapStep::Wrap(0)
        } else if instances[1] {
            WrapStep::Wrap(1)
        } else if instances[2] {
            WrapStep::Wrap(2)
        } else if instances[3] {
            WrapStep::Wrap(3)
        } else {
            WrapStep::Original
        }),
{
    reveal_with_fuel(wrap_course, 10);
}

/// A step of wrapping an error of the JSON decoder.
#[derive(Clone, Copy, Debug, PartialEq, Eq, Structural)]
pub enum JsonWrapStep {
    /// The class of such errors is read.
    FindSource,
    /// Whether Python finds the error to be an instance of it.
    Test,
    /// The class that wraps it is read.
    FindTarget,
    /// The message, the document and the position are read.
    ReadParts,
    /// The class is called with them.
    Wrap,
    /// The error is raised as it is.
    Original,
    /// Another error is raised in its place.
    Raise,
}

/// The step after an answer. What has ended stays as it is.
pub open spec fn json_wrap_after(step: JsonWrapStep, answer: StepAnswer) -> JsonWrapStep {
    match (step, answer) {
        (JsonWrapStep::Wrap, _) => step,
        (JsonWrapStep::Original, _) => step,
        (_, StepAnswer::Raised) => JsonWrapStep::Raise,
        (JsonWrapStep::FindSource, _) => JsonWrapStep::Test,
        (JsonWrapStep::Test, StepAnswer::Yes) => JsonWrapStep::FindTarget,
        (JsonWrapStep::Test, _) => JsonWrapStep::Original,
        (JsonWrapStep::FindTarget, _) => JsonWrapStep::ReadParts,
        (JsonWrapStep::ReadParts, _) => JsonWrapStep::Wrap,
        (JsonWrapStep::Raise, _) => step,
    }
}

impl JsonWrapStep {
    /// The first step.
    pub fn first() -> (step: Self)
        ensures
            step == JsonWrapStep::FindSource,
    {
        JsonWrapStep::FindSource
    }

    /// The step after an answer.
    pub fn wrap_json_error(self, answer: StepAnswer) -> (next: Self)
        ensures
            next == json_wrap_after(self, answer),
    {
        match (self, answer) {
            (JsonWrapStep::Wrap, _) => self,
            (JsonWrapStep::Original, _) => self,
            (_, StepAnswer::Raised) => JsonWrapStep::Raise,
            (JsonWrapStep::FindSource, _) => JsonWrapStep::Test,
            (JsonWrapStep::Test, StepAnswer::Yes) => JsonWrapStep::FindTarget,
            (JsonWrapStep::Test, _) => JsonWrapStep::Original,
            (JsonWrapStep::FindTarget, _) => JsonWrapStep::ReadParts,
            (JsonWrapStep::ReadParts, _) => JsonWrapStep::Wrap,
            (JsonWrapStep::Raise, _) => self,
        }
    }
}

/// A step of reading the whole content.
#[derive(Clone, Copy, Debug, PartialEq, Eq, Structural)]
pub enum ContentStep {
    /// Whether the content is `False`, that is, not read yet.
    TestUnread,
    /// Whether the response is marked as consumed.
    TestConsumed,
    /// Whether the status equals zero.
    TestStatus,
    /// Whether there is no raw stream.
    TestRaw,
    /// All pieces are read and joined.
    ReadAll,
    /// The content becomes `None`.
    Clear,
    /// The content becomes what was read.
    Store,
    /// The response is marked as consumed.
    MarkConsumed,
    /// The content is given back.
    Return,
    /// The content was consumed before: an error.
    AlreadyConsumed,
    Raise,
}

/// What Python answers to a step.
#[derive(Clone, Copy, Debug, PartialEq, Eq, Structural)]
pub enum StepAnswer {
    Yes,
    No,
    Done,
    Raised,
}

/// The step after an answer.
pub open spec fn content_after(step: ContentStep, answer: StepAnswer) -> ContentStep {
    if answer is Raised {
        ContentStep::Raise
    } else {
        match step {
            ContentStep::TestUnread => if answer is Yes {
                ContentStep::TestConsumed
            } else {
                ContentStep::MarkConsumed
            },
            ContentStep::TestConsumed => if answer is Yes {
                ContentStep::AlreadyConsumed
            } else {
                ContentStep::TestStatus
            },
            ContentStep::TestStatus => if answer is Yes {
                ContentStep::Clear
            } else {
                ContentStep::TestRaw
            },
            ContentStep::TestRaw => if answer is Yes {
                ContentStep::Clear
            } else {
                ContentStep::ReadAll
            },
            ContentStep::ReadAll => ContentStep::Store,
            ContentStep::Clear => ContentStep::MarkConsumed,
            ContentStep::Store => ContentStep::MarkConsumed,
            ContentStep::MarkConsumed => ContentStep::Return,
            other => other,
        }
    }
}

impl ContentStep {
    /// The first step.
    pub fn first() -> (step: Self)
        ensures
            step == ContentStep::TestUnread,
    {
        ContentStep::TestUnread
    }

    /// The step after an answer.
    pub fn content_dispatch(self, answer: StepAnswer) -> (next: Self)
        ensures
            next == content_after(self, answer),
    {
        match (self, answer) {
            (_, StepAnswer::Raised) => ContentStep::Raise,
            (ContentStep::TestUnread, StepAnswer::Yes) => ContentStep::TestConsumed,
            (ContentStep::TestUnread, _) => ContentStep::MarkConsumed,
            (ContentStep::TestConsumed, StepAnswer::Yes) => ContentStep::AlreadyConsumed,
            (ContentStep::TestConsumed, _) => ContentStep::TestStatus,
            (ContentStep::TestStatus, StepAnswer::Yes) => ContentStep::Clear,
            (ContentStep::TestStatus, _) => ContentStep::TestRaw,
            (ContentStep::TestRaw, StepAnswer::Yes) => ContentStep::Clear,
            (ContentStep::TestRaw, _) => ContentStep::ReadAll,
            (ContentStep::ReadAll, _) => ContentStep::Store,
            (ContentStep::Clear, _) => ContentStep::MarkConsumed,
            (ContentStep::Store, _) => ContentStep::MarkConsumed,
            (ContentStep::MarkConsumed, _) => ContentStep::Return,
            (other, _) => other,
        }
    }
}

/// The message about content that was consumed before.
pub fn already_consumed_message() -> (text: String)
    ensures
        text@ == "The content for this response was already consumed"@,
{
    String::from_str("The content for this response was already consumed")
}

/// What is so about a response when its content is asked for, and which step
/// fails, if one does.
pub struct ContentFacts {
    pub unread: bool,
    pub consumed: bool,
    pub status_is_zero: bool,
    pub raw_is_none: bool,
    pub failing: Option<ContentStep>,
}

impl ContentFacts {
    /// Python's answer to a step.
    pub open spec fn answer(self, step: ContentStep) -> StepAnswer {
        if self.failing == Some(step) {
            StepAnswer::Raised
        } else {
            match step {
                ContentStep::TestUnread => yes_or_no(self.unread),
                ContentStep::TestConsumed => yes_or_no(self.consumed),
                ContentStep::TestStatus => yes_or_no(self.status_is_zero),
                ContentStep::TestRaw => yes_or_no(self.raw_is_none),
                _ => StepAnswer::Done,
            }
        }
    }
}

/// The answer to a question.
pub open spec fn yes_or_no(yes: bool) -> StepAnswer {
    if yes {
        StepAnswer::Yes
    } else {
        StepAnswer::No
    }
}

/// The steps that change the response, up to a number of steps in all, and the
/// last step.
pub open spec fn content_course(facts: ContentFacts, step: ContentStep, limit: nat) -> (
    Seq<ContentStep>,
    ContentStep,
)
    decreases limit,
{
    if limit == 0 || step is Return || step is AlreadyConsumed || step is Raise {
        (Seq::empty(), step)
    } else {
        let answer = facts.answer(step);
        let (rest, end) = content_course(
            facts,
            content_after(step, answer),
            (limit - 1) as nat,
        );
        if (step is Clear || step is Store || step is MarkConsumed) && !(answer is Raised) {
            (seq![step] + rest, end)
        } else {
            (rest, end)
        }
    }
}

/// A response whose content was read gives it back as it is. One that was not
/// read is read, unless its stream was consumed before, which is an error; and
/// whoever gets the content finds the response marked as consumed.
pub proof fn law_content_is_read_once(facts: ContentFacts)
    requires
        facts.failing is None,
    ensures
        content_course(facts, ContentStep::TestUnread, 9) == (if !facts.unread {
            (seq![ContentStep::MarkConsumed], ContentStep::Return)
        } else if facts.consumed {
            (Seq::empty(), ContentStep::AlreadyConsumed)
        } else if facts.status_is_zero || facts.raw_is_none {
            (seq![ContentStep::Clear, ContentStep::MarkConsumed], ContentStep::Return)
        } else {
            (seq![ContentStep::Store, ContentStep::MarkConsumed], ContentStep::Return)
        }),
{
    reveal_with_fuel(content_course, 10);
    let none = Seq::<ContentStep>::empty();
    let marked = seq![ContentStep::MarkConsumed];
    assert(marked + none =~= marked);
    assert(seq![ContentStep::Clear] + marked =~= seq![
        ContentStep::Clear,
        ContentStep::MarkConsumed,
    ]);
    assert(seq![ContentStep::Store] + marked =~= seq![
        ContentStep::Store,
        ContentStep::MarkConsumed,
    ]);
}

/// The encoding that a text is read in.
#[derive(Clone, Copy, Debug, PartialEq, Eq, Structural)]
pub enum EncodingChoice {
    /// The response's own.
    Given,
    /// What the content looks like.
    Apparent,
    Utf8,
}

/// A step of reading the text.
#[derive(Clone, Copy, Debug, PartialEq, Eq, Structural)]
pub enum TextStep {
    ReadEncoding,
    /// Whether Python takes the content for true.
    TestContent,
    /// Whether the response has no encoding.
    TestNoEncoding,
    /// The apparent encoding is asked for.
    FindEncoding,
    /// The content is read for an encoding.
    ReadContent(EncodingChoice),
    /// Whether Python takes the encoding for true.
    TestChoice(EncodingChoice),
    /// The content is decoded, replacing what does not fit.
    Decode(EncodingChoice),
    /// The content is read once more.
    ReadAgain,
    /// The content is decoded without an encoding.
    DecodePlain,
    Return,
    ReturnEmpty,
    Raise,
}

/// What Python answers to a step of reading the text.
#[derive(Clone, Copy, Debug, PartialEq, Eq, Structural)]
pub enum TextAnswer {
    Yes,
    No,
    Done,
    /// A lookup error or a type error.
    Unsuitable,
    Raised,
}

/// The step after an answer.
pub open spec fn text_after(step: TextStep, answer: TextAnswer) -> TextStep {
    match (step, answer) {
        (TextStep::Decode(_), TextAnswer::Unsuitable) => TextStep::ReadAgain,
        (_, TextAnswer::Raised) => TextStep::Raise,
        (_, TextAnswer::Unsuitable) => TextStep::Raise,
        (TextStep::ReadEncoding, _) => TextStep::TestContent,
        (TextStep::TestContent, TextAnswer::Yes) => TextStep::TestNoEncoding,
        (TextStep::TestContent, _) => TextStep::ReturnEmpty,
        (TextStep::TestNoEncoding, TextAnswer::Yes) => TextStep::FindEncoding,
        (TextStep::TestNoEncoding, _) => TextStep::ReadContent(EncodingChoice::Given),
        (TextStep::FindEncoding, _) => TextStep::ReadContent(EncodingChoice::Apparent),
        (TextStep::ReadContent(choice), _) => TextStep::TestChoice(choice),
        (TextStep::TestChoice(choice), TextAnswer::Yes) => TextStep::Decode(choice),
        (TextStep::TestChoice(_), _) => TextStep::Decode(EncodingChoice::Utf8),
        (TextStep::Decode(_), _) => TextStep::Return,
        (TextStep::ReadAgain, _) => TextStep::DecodePlain,
        (TextStep::DecodePlain, _) => TextStep::Return,
        (other, _) => other,
    }
}

impl TextStep {
    /// The first step.
    pub fn first() -> (step: Self)
        ensures
            step == TextStep::ReadEncoding,
    {
        TextStep::ReadEncoding
    }

    /// The step after an answer.
    pub fn text_dispatch(self, answer: TextAnswer) -> (next: Self)
        ensures
            next == text_after(self, answer),
    {
        match (self, answer) {
            (TextStep::Decode(_), TextAnswer::Unsuitable) => TextStep::ReadAgain,
            (_, TextAnswer::Raised) => TextStep::Raise,
            (_, TextAnswer::Unsuitable) => TextStep::Raise,
            (TextStep::ReadEncoding, _) => TextStep::TestContent,
            (TextStep::TestContent, TextAnswer::Yes) => TextStep::TestNoEncoding,
            (TextStep::TestContent, _) => TextStep::ReturnEmpty,
            (TextStep::TestNoEncoding, TextAnswer::Yes) => TextStep::FindEncoding,
            (TextStep::TestNoEncoding, _) => TextStep::ReadContent(EncodingChoice::Given),
            (TextStep::FindEncoding, _) => TextStep::ReadContent(EncodingChoice::Apparent),
            (TextStep::ReadContent(choice), _) => TextStep::TestChoice(choice),
            (TextStep::TestChoice(choice), TextAnswer::Yes) => TextStep::Decode(choice),
            (TextStep::TestChoice(_), _) => TextStep::Decode(EncodingChoice::Utf8),
            (TextStep::Decode(_), _) => TextStep::Return,
            (TextStep::ReadAgain, _) => TextStep::DecodePlain,
            (TextStep::DecodePlain, _) => TextStep::Return,
            (other, _) => other,
        }
    }
}

/// What is so about a response when its text is asked for.
pub struct TextFacts {
    pub has_content: bool,
    pub no_encoding: bool,
    /// Python takes the chosen encoding for true.
    pub choice_is_true: bool,
    /// The chosen encoding is unknown or no text.
    pub unsuitable: bool,
}

impl TextFacts {
    /// Python's answer to a step.
    pub open spec fn answer(self, step: TextStep) -> TextAnswer {
        match step {
            TextStep::TestContent => if self.has_content {
                TextAnswer::Yes
            } else {
                TextAnswer::No
            },
            TextStep::TestNoEncoding => if self.no_encoding {
                TextAnswer::Yes
            } else {
                TextAnswer::No
            },
            TextStep::TestChoice(_) => if self.choice_is_true {
                TextAnswer::Yes
            } else {
                TextAnswer::No
            },
            TextStep::Decode(_) => if self.unsuitable {
                TextAnswer::Unsuitable
            } else {
                TextAnswer::Done
            },
            _ => TextAnswer::Done,
        }
    }

    /// The encoding that the text is read in.
    pub open spec fn chosen(self) -> EncodingChoice {
        if !self.choice_is_true {
            EncodingChoice::Utf8
        } else if self.no_encoding {
            EncodingChoice::Apparent
        } else {
            EncodingChoice::Given
        }
    }
}

/// The decodings that are tried, up to a number of steps in all, and the last
/// step.
pub open spec fn text_course(facts: TextFacts, step: TextStep, limit: nat) -> (
    Seq<TextStep>,
    TextStep,
)
    decreases limit,
{
    if limit == 0 || step is Return || step is ReturnEmpty || step is Raise {
        (Seq::empty(), step)
    } else {
        let (rest, end) = text_course(
            facts,
            text_after(step, facts.answer(step)),
            (limit - 1) as nat,
        );
        if step is Decode || step is DecodePlain {
            (seq![step] + rest, end)
        } else {
            (rest, end)
        }
    }
}

/// A text is read in the response's encoding, in the apparent one where it has
/// none, and in UTF-8 where that is nothing; an unsuitable encoding is given up
/// for none at all. A response without content has the empty text.
pub proof fn law_text_is_always_found(facts: TextFacts)
    ensures
        text_course(facts, TextStep::ReadEncoding, 12) == (if !facts.has_content {
            (Seq::empty(), TextStep::ReturnEmpty)
        } else if facts.unsuitable {
            (
                seq![TextStep::Decode(facts.chosen()), TextStep::DecodePlain],
                TextStep::Return,
            )
        } else {
            (seq![TextStep::Decode(facts.chosen())], TextStep::Return)
        }),
{
    reveal_with_fuel(text_course, 13);
    let none = Seq::<TextStep>::empty();
    let plain = seq![TextStep::DecodePlain];
    let chosen = TextStep::Decode(facts.chosen());
    assert(plain + none =~= plain);
    assert(seq![chosen] + none =~= seq![chosen]);
    assert(seq![chosen] + plain =~= seq![chosen, TextStep::DecodePlain]);
}

/// What the JSON is loaded from.
#[derive(Clone, Copy, Debug, PartialEq, Eq, Structural)]
pub enum JsonSource {
    /// The content, decoded as its first bytes suggest.
    Guessed,
    /// The response's text.
    Text,
}

/// A step of reading the JSON.
#[derive(Clone, Copy, Debug, PartialEq, Eq, Structural)]
pub enum JsonStep {
    ReadEncoding,
    ReadContent,
    /// Whether Python takes the encoding for true.
    TestEncoding,
    /// Whether Python takes the content for true.
    TestContent,
    /// Whether the content is longer than three.
    TestLength,
    /// Whether its first bytes suggest an encoding.
    Guess,
    /// The content is decoded in that encoding.
    DecodeGuessed,
    ReadText,
    Load(JsonSource),
    Return,
    Raise,
}

/// What Python answers to a step of reading the JSON.
#[derive(Clone, Copy, Debug, PartialEq, Eq, Structural)]
pub enum JsonAnswer {
    Yes,
    No,
    Done,
    /// An error of decoding.
    Undecodable,
    Raised,
}

/// The step after an answer.
pub open spec fn json_after(step: JsonStep, answer: JsonAnswer) -> JsonStep {
    match (step, answer) {
        (JsonStep::DecodeGuessed, JsonAnswer::Undecodable) => JsonStep::ReadText,
        (_, JsonAnswer::Undecodable) => JsonStep::Raise,
        (_, JsonAnswer::Raised) => JsonStep::Raise,
        (JsonStep::ReadEncoding, _) => JsonStep::ReadContent,
        (JsonStep::ReadContent, _) => JsonStep::TestEncoding,
        (JsonStep::TestEncoding, JsonAnswer::Yes) => JsonStep::ReadText,
        (JsonStep::TestEncoding, _) => JsonStep::TestContent,
        (JsonStep::TestContent, JsonAnswer::Yes) => JsonStep::TestLength,
        (JsonStep::TestContent, _) => JsonStep::ReadText,
        (JsonStep::TestLength, JsonAnswer::Yes) => JsonStep::Guess,
        (JsonStep::TestLength, _) => JsonStep::ReadText,
        (JsonStep::Guess, JsonAnswer::Yes) => JsonStep::DecodeGuessed,
        (JsonStep::Guess, _) => JsonStep::ReadText,
        (JsonStep::DecodeGuessed, _) => JsonStep::Load(JsonSource::Guessed),
        (JsonStep::ReadText, _) => JsonStep::Load(JsonSource::Text),
        (JsonStep::Load(_), _) => JsonStep::Return,
        (other, _) => other,
    }
}

impl JsonStep {
    /// The first step.
    pub fn first() -> (step: Self)
        ensures
            step == JsonStep::ReadEncoding,
    {
        JsonStep::ReadEncoding
    }

    /// The step after an answer.
    pub fn json_dispatch(self, answer: JsonAnswer) -> (next: Self)
        ensures
            next == json_after(self, answer),
    {
        match (self, answer) {
            (JsonStep::DecodeGuessed, JsonAnswer::Undecodable) => JsonStep::ReadText,
            (_, JsonAnswer::Undecodable) => JsonStep::Raise,
            (_, JsonAnswer::Raised) => JsonStep::Raise,
            (JsonStep::ReadEncoding, _) => JsonStep::ReadContent,
            (JsonStep::ReadContent, _) => JsonStep::TestEncoding,
            (JsonStep::TestEncoding, JsonAnswer::Yes) => JsonStep::ReadText,
            (JsonStep::TestEncoding, _) => JsonStep::TestContent,
            (JsonStep::TestContent, JsonAnswer::Yes) => JsonStep::TestLength,
            (JsonStep::TestContent, _) => JsonStep::ReadText,
            (JsonStep::TestLength, JsonAnswer::Yes) => JsonStep::Guess,
            (JsonStep::TestLength, _) => JsonStep::ReadText,
            (JsonStep::Guess, JsonAnswer::Yes) => JsonStep::DecodeGuessed,
            (JsonStep::Guess, _) => JsonStep::ReadText,
            (JsonStep::DecodeGuessed, _) => JsonStep::Load(JsonSource::Guessed),
            (JsonStep::ReadText, _) => JsonStep::Load(JsonSource::Text),
            (JsonStep::Load(_), _) => JsonStep::Return,
            (other, _) => other,
        }
    }
}

/// Whether a content is long enough for its encoding to be guessed.
pub fn is_guessable(length: usize) -> (yes: bool)
    ensures
        yes == (length > 3),
{
    length > 3
}

/// What is so about a response when its JSON is asked for.
pub struct JsonFacts {
    pub has_encoding: bool,
    pub has_content: bool,
    pub long: bool,
    pub suggests: bool,
    pub undecodable: bool,
}

impl JsonFacts {
    /// Python's answer to a step.
    pub open spec fn answer(self, step: JsonStep) -> JsonAnswer {
        match step {
            JsonStep::TestEncoding => if self.has_encoding {
                JsonAnswer::Yes
            } else {
                JsonAnswer::No
            },
            JsonStep::TestContent => if self.has_content {
                JsonAnswer::Yes
            } else {
                JsonAnswer::No
            },
            JsonStep::TestLength => if self.long {
                JsonAnswer::Yes
            } else {
                JsonAnswer::No
            },
            JsonStep::Guess => if self.suggests {
                JsonAnswer::Yes
            } else {
                JsonAnswer::No
            },
            JsonStep::DecodeGuessed => if self.undecodable {
                JsonAnswer::Undecodable
            } else {
                JsonAnswer::Done
            },
            _ => JsonAnswer::Done,
        }
    }
}

/// What the JSON is loaded from, if the steps get there, up to a number of
/// steps in all.
pub open spec fn json_course(facts: JsonFacts, step: JsonStep, limit: nat) -> Option<JsonSource>
    decreases limit,
{
    if limit == 0 || step is Return || step is Raise {
        None
    } else {
        match step {
            JsonStep::Load(source) => Some(source),
            _ => json_course(facts, json_after(step, facts.answer(step)), (limit - 1) as nat),
        }
    }
}

/// The encoding is guessed only for a response that names none and whose
/// content is long enough; a guess that does not fit is given up for the text.
pub proof fn law_json_is_guessed_without_an_encoding(facts: JsonFacts)
    ensures
        json_course(facts, JsonStep::ReadEncoding, 12) == Some(
            if !facts.has_encoding && facts.has_content && facts.long && facts.suggests
                && !facts.undecodable {
                JsonSource::Guessed
            } else {
                JsonSource::Text
            },
        ),
{
    reveal_with_fuel(json_course, 13);
}

/// What the apparent encoding is found by: nothing where there is no detector,
/// in which case it is UTF-8.
pub fn apparent_encoding(detector_is_none: bool) -> (fixed: Option<&'static str>)
    ensures
        match fixed {
            Some(fixed) => detector_is_none && fixed@ == "utf-8"@,
            None => !detector_is_none,
        },
{
    if detector_is_none {
        Some("utf-8")
    } else {
        None
    }
}

/// What asking for the next piece comes to, where the raw stream can be iterated
/// over or not and has these pieces left, and the source after it.
pub open spec fn next_piece(
    source: ContentSource,
    step: PieceStep,
    streams: bool,
    iterator: usize,
    pieces: Seq<usize>,
    limit: nat,
) -> (PieceStep, ContentSource)
    decreases limit,
{
    match step {
        PieceStep::Call(call) => if limit == 0 {
            (step, source)
        } else {
            let answer = match call {
                PieceCall::CheckStream => if streams {
                    PieceAnswer::Yes
                } else {
                    PieceAnswer::No
                },
                PieceCall::OpenStream => PieceAnswer::Object(iterator),
                PieceCall::MarkConsumed => PieceAnswer::Done,
                _ => if pieces.len() > 0 {
                    PieceAnswer::Object(pieces[0])
                } else {
                    PieceAnswer::Nothing
                },
            };
            next_piece(
                source_after(source, call, answer),
                piece_step(call, answer),
                streams,
                iterator,
                pieces,
                (limit - 1) as nat,
            )
        },
        _ => (step, source),
    }
}

/// Every piece of the raw stream is given out, one at a time and in order, through
/// an iterator where the stream has one and else by reading. The way is chosen
/// once. After the last piece the response is marked as consumed, and nothing more
/// comes.
pub proof fn law_pieces_come_one_by_one(
    source: ContentSource,
    streams: bool,
    iterator: usize,
    pieces: Seq<usize>,
)
    ensures
        next_piece(source, first_call(source), streams, iterator, pieces, 4) == (
            if source is Done {
                (PieceStep::End, source)
            } else if pieces.len() == 0 {
                (PieceStep::End, ContentSource::Done)
            } else if !(source is Unstarted) {
                (PieceStep::Yield(pieces[0]), source)
            } else if streams {
                (PieceStep::Yield(pieces[0]), ContentSource::Stream(iterator))
            } else {
                (PieceStep::Yield(pieces[0]), ContentSource::Read)
            }
        ),
{
    reveal_with_fuel(next_piece, 5);
}

/// An error of the stream's iterator is wrapped, and every other error is raised
/// as it is. Neither marks the response as consumed.
pub proof fn law_errors_of_pieces(source: ContentSource, call: PieceCall, error: usize)
    ensures
        piece_step(call, PieceAnswer::Raised(error)) == (if call is NextOf {
            PieceStep::RaiseWrapped(error)
        } else {
            PieceStep::Raise(error)
        }),
        source_after(source, call, PieceAnswer::Raised(error)) == source,
{
}

/// All steps of reading the content.
pub open spec fn content_steps(facts: ContentFacts, step: ContentStep, limit: nat) -> Seq<
    ContentStep,
>
    decreases limit,
{
    if limit == 0 || step is Return || step is AlreadyConsumed || step is Raise {
        seq![step]
    } else {
        seq![step] + content_steps(facts, content_after(step, facts.answer(step)), (limit - 1) as nat)
    }
}

/// The content is stored only after all of it was read, and given back only once
/// the response is marked as consumed. Content that was consumed before and never
/// kept is an error, and none is read where there is nothing to read.
pub proof fn law_content_takes_its_course(facts: ContentFacts)
    requires
        facts.failing is None,
    ensures
        content_steps(facts, ContentStep::TestUnread, 9) == (if !facts.unread {
            seq![ContentStep::TestUnread, ContentStep::MarkConsumed, ContentStep::Return]
        } else if facts.consumed {
            seq![
                ContentStep::TestUnread,
                ContentStep::TestConsumed,
                ContentStep::AlreadyConsumed,
            ]
        } else if facts.status_is_zero {
            seq![
                ContentStep::TestUnread,
                ContentStep::TestConsumed,
                ContentStep::TestStatus,
                ContentStep::Clear,
                ContentStep::MarkConsumed,
                ContentStep::Return,
            ]
        } else if facts.raw_is_none {
            seq![
                ContentStep::TestUnread,
                ContentStep::TestConsumed,
                ContentStep::TestStatus,
                ContentStep::TestRaw,
                ContentStep::Clear,
                ContentStep::MarkConsumed,
                ContentStep::Return,
            ]
        } else {
            seq![
                ContentStep::TestUnread,
                ContentStep::TestConsumed,
                ContentStep::TestStatus,
                ContentStep::TestRaw,
                ContentStep::ReadAll,
                ContentStep::Store,
                ContentStep::MarkConsumed,
                ContentStep::Return,
            ]
        }),
{
    reveal_with_fuel(content_steps, 10);
    let steps = content_steps(facts, ContentStep::TestUnread, 9);
    if !facts.unread {
        assert(steps =~= seq![
            ContentStep::TestUnread,
            ContentStep::MarkConsumed,
            ContentStep::Return,
        ]);
    } else if facts.consumed {
        assert(steps =~= seq![
            ContentStep::TestUnread,
            ContentStep::TestConsumed,
            ContentStep::AlreadyConsumed,
        ]);
    } else if facts.status_is_zero {
        assert(steps =~= seq![
            ContentStep::TestUnread,
            ContentStep::TestConsumed,
            ContentStep::TestStatus,
            ContentStep::Clear,
            ContentStep::MarkConsumed,
            ContentStep::Return,
        ]);
    } else if facts.raw_is_none {
        assert(steps =~= seq![
            ContentStep::TestUnread,
            ContentStep::TestConsumed,
            ContentStep::TestStatus,
            ContentStep::TestRaw,
            ContentStep::Clear,
            ContentStep::MarkConsumed,
            ContentStep::Return,
        ]);
    } else {
        assert(steps =~= seq![
            ContentStep::TestUnread,
            ContentStep::TestConsumed,
            ContentStep::TestStatus,
            ContentStep::TestRaw,
            ContentStep::ReadAll,
            ContentStep::Store,
            ContentStep::MarkConsumed,
            ContentStep::Return,
        ]);
    }
}

/// All steps of reading the text.
pub open spec fn text_steps(facts: TextFacts, step: TextStep, limit: nat) -> Seq<TextStep>
    decreases limit,
{
    if limit == 0 || step is Return || step is ReturnEmpty || step is Raise {
        seq![step]
    } else {
        seq![step] + text_steps(facts, text_after(step, facts.answer(step)), (limit - 1) as nat)
    }
}

/// The apparent encoding is asked for exactly where the response has none. The
/// content is read before it is decoded, and once more before it is decoded
/// without an encoding.
pub proof fn law_text_takes_its_course(facts: TextFacts)
    ensures
        ({
            let steps = text_steps(facts, TextStep::ReadEncoding, 12);
            let choice = if facts.no_encoding {
                EncodingChoice::Apparent
            } else {
                EncodingChoice::Given
            };
            let asked = if facts.no_encoding {
                seq![TextStep::FindEncoding]
            } else {
                Seq::empty()
            };
            let decoded = TextStep::Decode(
                if facts.choice_is_true {
                    choice
                } else {
                    EncodingChoice::Utf8
                },
            );
            let end = if facts.unsuitable {
                seq![TextStep::ReadAgain, TextStep::DecodePlain, TextStep::Return]
            } else {
                seq![TextStep::Return]
            };
            steps == (if !facts.has_content {
                seq![TextStep::ReadEncoding, TextStep::TestContent, TextStep::ReturnEmpty]
            } else {
                seq![TextStep::ReadEncoding, TextStep::TestContent, TextStep::TestNoEncoding]
                    + asked + seq![
                    TextStep::ReadContent(choice),
                    TextStep::TestChoice(choice),
                    decoded,
                ] + end
            })
        }),
{
    reveal_with_fuel(text_steps, 13);
    let steps = text_steps(facts, TextStep::ReadEncoding, 12);
    let choice = if facts.no_encoding {
        EncodingChoice::Apparent
    } else {
        EncodingChoice::Given
    };
    let asked = if facts.no_encoding {
        seq![TextStep::FindEncoding]
    } else {
        Seq::empty()
    };
    let decoded = TextStep::Decode(
        if facts.choice_is_true {
            choice
        } else {
            EncodingChoice::Utf8
        },
    );
    let end = if facts.unsuitable {
        seq![TextStep::ReadAgain, TextStep::DecodePlain, TextStep::Return]
    } else {
        seq![TextStep::Return]
    };
    if !facts.has_content {
        assert(steps =~= seq![
            TextStep::ReadEncoding,
            TextStep::TestContent,
            TextStep::ReturnEmpty,
        ]);
    } else {
        assert(steps =~= seq![
            TextStep::ReadEncoding,
            TextStep::TestContent,
            TextStep::TestNoEncoding,
        ] + asked + seq![TextStep::ReadContent(choice), TextStep::TestChoice(choice), decoded]
            + end);
    }
}

/// All steps of reading the JSON.
pub open spec fn json_steps(facts: JsonFacts, step: JsonStep, limit: nat) -> Seq<JsonStep>
    decreases limit,
{
    if limit == 0 || step is Return || step is Raise {
        seq![step]
    } else {
        seq![step] + json_steps(facts, json_after(step, facts.answer(step)), (limit - 1) as nat)
    }
}

/// What is guessed is what is decoded and loaded; in every other case the text is
/// read and loaded. The loaded value is returned.
pub proof fn law_json_takes_its_course(facts: JsonFacts)
    ensures
        ({
            let steps = json_steps(facts, JsonStep::ReadEncoding, 12);
            let text = seq![
                JsonStep::ReadText,
                JsonStep::Load(JsonSource::Text),
                JsonStep::Return,
            ];
            let start = seq![
                JsonStep::ReadEncoding,
                JsonStep::ReadContent,
                JsonStep::TestEncoding,
            ];
            steps == (if facts.has_encoding {
                start + text
            } else if !facts.has_content {
                start + seq![JsonStep::TestContent] + text
            } else if !facts.long {
                start + seq![JsonStep::TestContent, JsonStep::TestLength] + text
            } else if !facts.suggests {
                start + seq![JsonStep::TestContent, JsonStep::TestLength, JsonStep::Guess] + text
            } else if facts.undecodable {
                start + seq![
                    JsonStep::TestContent,
                    JsonStep::TestLength,
                    JsonStep::Guess,
                    JsonStep::DecodeGuessed,
                ] + text
            } else {
                start + seq![
                    JsonStep::TestContent,
                    JsonStep::TestLength,
                    JsonStep::Guess,
                    JsonStep::DecodeGuessed,
                    JsonStep::Load(JsonSource::Guessed),
                    JsonStep::Return,
                ]
            })
        }),
{
    reveal_with_fuel(json_steps, 13);
    let steps = json_steps(facts, JsonStep::ReadEncoding, 12);
    let text = seq![JsonStep::ReadText, JsonStep::Load(JsonSource::Text), JsonStep::Return];
    let start = seq![JsonStep::ReadEncoding, JsonStep::ReadContent, JsonStep::TestEncoding];
    if facts.has_encoding {
        assert(steps =~= start + text);
    } else if !facts.has_content {
        assert(steps =~= start + seq![JsonStep::TestContent] + text);
    } else if !facts.long {
        assert(steps =~= start + seq![JsonStep::TestContent, JsonStep::TestLength] + text);
    } else if !facts.suggests {
        assert(steps =~= start + seq![
            JsonStep::TestContent,
            JsonStep::TestLength,
            JsonStep::Guess,
        ] + text);
    } else if facts.undecodable {
        assert(steps =~= start + seq![
            JsonStep::TestContent,
            JsonStep::TestLength,
            JsonStep::Guess,
            JsonStep::DecodeGuessed,
        ] + text);
    } else {
        assert(steps =~= start + seq![
            JsonStep::TestContent,
            JsonStep::TestLength,
            JsonStep::Guess,
            JsonStep::DecodeGuessed,
            JsonStep::Load(JsonSource::Guessed),
            JsonStep::Return,
        ]);
    }
}

/// An error of Python's own code ends the reading of content, text or JSON.
pub proof fn law_errors_end_a_reading(content: ContentStep, text: TextStep, json: JsonStep)
    ensures
        content_after(content, StepAnswer::Raised) is Raise,
        text_after(text, TextAnswer::Raised) is Raise,
        json_after(json, JsonAnswer::Raised) is Raise,
        !(text is Decode) ==> text_after(text, TextAnswer::Unsuitable) is Raise,
        !(json is DecodeGuessed) ==> json_after(json, JsonAnswer::Undecodable) is Raise,
{
}

/// An error of a JSON decoder is wrapped only after its class was found to catch
/// it and its parts were read; one that is not caught goes on.
pub proof fn law_json_errors_are_wrapped_in_order(caught: bool)
    ensures
        json_wrap_after(JsonWrapStep::FindSource, StepAnswer::Done) is Test,
        json_wrap_after(JsonWrapStep::Test, yes_or_no(caught)) == (if caught {
            JsonWrapStep::FindTarget
        } else {
            JsonWrapStep::Original
        }),
        json_wrap_after(JsonWrapStep::FindTarget, StepAnswer::Done) is ReadParts,
        json_wrap_after(JsonWrapStep::ReadParts, StepAnswer::Done) is Wrap,
        forall|step: JsonWrapStep|
            !(step is Wrap || step is Original) ==> #[trigger] json_wrap_after(
                step,
                StepAnswer::Raised,
            ) is Raise,
{
}

/// An error of a stream whose class is not defined is told by the name that is
/// missing: the class that is looked for, or the class that would wrap it.
pub proof fn law_missing_classes_are_told(place: usize)
    requires
        place < 4,
    ensures
        wrap_after(WrapStep::FindSource(place), WrapAnswer::Missing) == WrapStep::Undefined(
            stream_mappings()[place as int].0,
        ),
        wrap_after(WrapStep::FindTarget(place), WrapAnswer::Missing) == WrapStep::Undefined(
            stream_mappings()[place as int].1,
        ),
        wrap_after(WrapStep::Test(place), WrapAnswer::Raised) is RaiseCurrent,
{
}

/// A task is native exactly where each operation that it needs is the one that
/// was first met.
pub proof fn law_native_tasks_need_every_operation(
    heap: Heap,
    state: ResponseState,
    subject: usize,
    list: Seq<(ResponseMember, Seq<ResponseGlobal>)>,
)
    ensures
        all_exact(heap, state, subject, list) == Ok::<bool, crate::heap::Failure>(true) <==> forall|index: int|
            0 <= index < list.len() ==> is_exact_operation(
                heap,
                state,
                subject,
                (#[trigger] list[index]).0,
                list[index].1,
            ) == Ok::<bool, crate::heap::Failure>(true),
    decreases list.len(),
{
    if list.len() > 0 {
        let rest = list.drop_first();
        law_native_tasks_need_every_operation(heap, state, subject, rest);
        if all_exact(heap, state, subject, list) == Ok::<bool, crate::heap::Failure>(true) {
            assert forall|index: int| 0 <= index < list.len() implies is_exact_operation(
                heap,
                state,
                subject,
                (#[trigger] list[index]).0,
                list[index].1,
            ) == Ok::<bool, crate::heap::Failure>(true) by {
                if index > 0 {
                    assert(rest[index - 1] == list[index]);
                }
            }
        } else if forall|index: int|
            0 <= index < list.len() ==> is_exact_operation(
                heap,
                state,
                subject,
                (#[trigger] list[index]).0,
                list[index].1,
            ) == Ok::<bool, crate::heap::Failure>(true) {
            assert(is_exact_operation(heap, state, subject, list[0].0, list[0].1) == Ok::<
                bool,
                crate::heap::Failure,
            >(true));
            assert forall|index: int| 0 <= index < rest.len() implies is_exact_operation(
                heap,
                state,
                subject,
                (#[trigger] rest[index]).0,
                rest[index].1,
            ) == Ok::<bool, crate::heap::Failure>(true) by {
                assert(rest[index] == list[index + 1]);
            }
        }
    }
}

/// Every task needs its own member of the response first; the truth of a response
/// needs whether it is in order, the content needs its pieces, and the JSON needs
/// content and text.
pub proof fn law_tasks_need_their_own_member(task: ResponseTask)
    ensures
        requirements(task).len() > 0,
        requirements(task)[0].0 is IterContent <==> task is IterContent,
        requirements(task)[0].0 is Content <==> task is Content,
        requirements(task)[0].0 is ApparentEncoding <==> task is ApparentEncoding,
        requirements(task)[0].0 is Text <==> task is Text,
        requirements(task)[0].0 is Json <==> task is Json,
        requirements(task)[0].0 is IterLines <==> task is IterLines,
        requirements(task)[0].0 is RaiseForStatus <==> task is RaiseForStatus,
        requirements(task)[0].0 is IsOk <==> task is IsOk,
        requirements(task)[0].0 is Repr <==> task is Repr,
        requirements(task)[0].0 is Bool <==> task is Truth,
        requirements(task)[0].0 is IsRedirect <==> task is IsRedirect,
        requirements(task)[0].0 is IsPermanentRedirect <==> task is IsPermanentRedirect,
        requirements(task)[0].0 is NextRequest <==> task is NextRequest,
        requirements(task)[0].0 is GetState <==> task is GetState,
        requirements(task)[0].0 is SetState <==> task is SetState,
        requirements(task)[0].0 is Close <==> task is Close,
        task is Content ==> requirements(task).len() == 2 && requirements(task)[1].0 is IterContent,
        task is Truth ==> requirements(task).len() == 2 && requirements(task)[1].0 is IsOk,
        task is Json ==> requirements(task).len() == 3 && requirements(task)[1].0 is Content
            && requirements(task)[2].0 is Text,
        !(task is Content || task is Truth || task is Json) ==> requirements(task).len() == 1,
{
}

/// The names that each task's own code reads have to be what they first were.
pub proof fn law_tasks_read_these_names(global: ResponseGlobal)
    ensures
        requirements(ResponseTask::Json)[0].1.contains(ResponseGlobal::Complexjson),
        requirements(ResponseTask::Json)[0].1.contains(ResponseGlobal::GuessJsonUtf),
        requirements(ResponseTask::Json)[0].1.contains(ResponseGlobal::JsonDecodeError),
        requirements(ResponseTask::Json)[0].1.contains(ResponseGlobal::RequestsJsonDecodeError),
        requirements(ResponseTask::Json)[0].1.contains(ResponseGlobal::UnicodeDecodeError),
        requirements(ResponseTask::Json)[0].1.contains(ResponseGlobal::Length),
        requirements(ResponseTask::RaiseForStatus)[0].1.contains(ResponseGlobal::HttpError),
        requirements(ResponseTask::RaiseForStatus)[0].1.contains(ResponseGlobal::IsInstance),
        requirements(ResponseTask::RaiseForStatus)[0].1.contains(ResponseGlobal::BytesType),
        requirements(ResponseTask::RaiseForStatus)[0].1.contains(
            ResponseGlobal::UnicodeDecodeError,
        ),
        requirements(ResponseTask::Text)[0].1.contains(ResponseGlobal::StrType),
        requirements(ResponseTask::Text)[0].1.contains(ResponseGlobal::LookupError),
        requirements(ResponseTask::Text)[0].1.contains(ResponseGlobal::TypeError),
        requirements(ResponseTask::Content)[0].1.contains(ResponseGlobal::ContentChunkSize),
        requirements(ResponseTask::Content)[0].1.contains(ResponseGlobal::RuntimeError),
        requirements(ResponseTask::IsOk)[0].1 == seq![ResponseGlobal::HttpError],
        requirements(ResponseTask::Truth)[1].1 == seq![ResponseGlobal::HttpError],
        requirements(ResponseTask::IsRedirect)[0].1 == seq![ResponseGlobal::RedirectStatuses],
        requirements(ResponseTask::IsPermanentRedirect)[0].1 == seq![ResponseGlobal::Codes],
        requirements(ResponseTask::GetState)[0].1 == seq![ResponseGlobal::GetAttr],
        requirements(ResponseTask::SetState)[0].1 == seq![ResponseGlobal::SetAttr],
        requirements(ResponseTask::Close)[0].1 == seq![ResponseGlobal::GetAttr],
        requirements(ResponseTask::IterLines)[0].1 == seq![ResponseGlobal::Cast],
        requirements(ResponseTask::ApparentEncoding)[0].1 == seq![ResponseGlobal::Chardet],
        requirements(ResponseTask::IterContent)[0].1.len() == 19,
        requirements(ResponseTask::IterContent)[0].1.contains(global) <==> {
            ||| global is IterSlices
            ||| global is StreamDecodeResponseUnicode
            ||| global is ProtocolError
            ||| global is DecodeError
            ||| global is ReadTimeoutError
            ||| global is SslError
            ||| global is ChunkedEncodingError
            ||| global is ContentDecodingError
            ||| global is ConnectionError
            ||| global is RequestsSslError
            ||| global is StreamConsumedError
            ||| global is BoolType
            ||| global is IntType
            ||| global is HasAttr
            ||| global is Cast
            ||| global is BytesType
            ||| global is TypeType
            ||| global is IsInstance
            ||| global is TypeError
        },
{
    let json = json_globals();
    assert(json[0] is Complexjson && json[1] is GuessJsonUtf && json[2] is JsonDecodeError
        && json[3] is RequestsJsonDecodeError && json[4] is UnicodeDecodeError && json[5]
        is Length);
    let status = status_globals();
    assert(status[0] is HttpError && status[1] is IsInstance && status[2] is BytesType && status[3]
        is UnicodeDecodeError);
    let text = requirements(ResponseTask::Text)[0].1;
    assert(text[0] is StrType && text[1] is LookupError && text[2] is TypeError);
    let content = requirements(ResponseTask::Content)[0].1;
    assert(content[0] is ContentChunkSize && content[1] is RuntimeError);
    let pieces = iter_content_globals();
    assert(pieces[0] is IterSlices && pieces[1] is StreamDecodeResponseUnicode && pieces[2]
        is ProtocolError && pieces[3] is DecodeError && pieces[4] is ReadTimeoutError && pieces[5]
        is SslError && pieces[6] is ChunkedEncodingError && pieces[7] is ContentDecodingError
        && pieces[8] is ConnectionError && pieces[9] is RequestsSslError && pieces[10]
        is StreamConsumedError && pieces[11] is BoolType && pieces[12] is IntType && pieces[13]
        is HasAttr && pieces[14] is Cast && pieces[15] is BytesType && pieces[16] is TypeType
        && pieces[17] is IsInstance && pieces[18] is TypeError);
}

/// There are four classes to wrap, and no more.
pub proof fn law_there_are_four_classes(place: usize)
    ensures
        stream_mappings().len() == 4,
        place >= 4 ==> wrap_after(WrapStep::FindSource(place), WrapAnswer::Missing)
            is RaiseCurrent && wrap_after(WrapStep::FindTarget(place), WrapAnswer::Missing)
            is RaiseCurrent,
        place >= 3 ==> wrap_after(WrapStep::Test(place), WrapAnswer::No) is Original,
        place < 3 ==> wrap_after(WrapStep::Test(place), WrapAnswer::No) == WrapStep::FindSource(
            (place + 1) as usize,
        ),
{
}

} // verus!
