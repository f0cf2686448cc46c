//! What a response says of itself: its status, its redirects, its pickled state
//! and its closing.

use vstd::prelude::*;
use vstd::string::StringExecFns;

use crate::errors::{derives_from, is_subclass};
use crate::heap::{both, Check, Failure, Heap};
use crate::response_read::{is_native, task_is_native, ResponseTask};
use crate::response_state::{direct_entry_of, raw_direct_type_entry, ResponseState};
use crate::text::same_text;

verus! {

/// The range that a status is in, where it is one of errors.
#[derive(Clone, Copy, Debug, PartialEq, Eq, Structural)]
pub enum StatusError {
    /// From 400 up to 500.
    Client,
    /// From 500 up to 600.
    Server,
}

impl StatusError {
    /// The message, to be filled with the status, the reason and the URL.
    pub open spec fn template(self) -> Seq<char> {
        match self {
            StatusError::Client => "{} Client Error: {} for url: {}"@,
            StatusError::Server => "{} Server Error: {} for url: {}"@,
        }
    }

    /// The message, to be filled with the status, the reason and the URL.
    pub fn message_template(&self) -> (text: &'static str)
        ensures
            text@ == self.template(),
    {
        match self {
            StatusError::Client => "{} Client Error: {} for url: {}",
            StatusError::Server => "{} Server Error: {} for url: {}",
        }
    }
}

/// A step of checking a status.
#[derive(Clone, Copy, Debug, PartialEq, Eq, Structural)]
pub enum StatusStep {
    ReadStatus,
    ReadReason,
    /// Whether the reason is bytes.
    TestReason,
    /// The reason is decoded as UTF-8.
    DecodeUtf8,
    /// The reason is decoded as ISO 8859-1.
    DecodeLatin1,
    /// Whether a number is no greater than the status.
    AtLeast(i32),
    /// Whether the status is less than a number.
    Below(i32),
    /// The message is made, from the template, the status, the reason and the
    /// URL.
    MakeMessage(StatusError),
    /// The error is made, with the response.
    MakeError(StatusError),
    /// `None` is returned.
    Return,
    /// The error that was made is raised.
    RaiseStatus(StatusError),
    /// An error of Python's is raised.
    Raise,
}

/// What Python answers to a step.
#[derive(Clone, Copy, Debug, PartialEq, Eq, Structural)]
pub enum StatusAnswer {
    Yes,
    No,
    Done,
    /// An error of decoding.
    Undecodable,
    Raised,
}

/// The step after an answer.
pub open spec fn status_after(step: StatusStep, answer: StatusAnswer) -> StatusStep {
    match (step, answer) {
        (StatusStep::DecodeUtf8, StatusAnswer::Undecodable) => StatusStep::DecodeLatin1,
        (_, StatusAnswer::Undecodable) => StatusStep::Raise,
        (_, StatusAnswer::Raised) => StatusStep::Raise,
        (StatusStep::ReadStatus, _) => StatusStep::ReadReason,
        (StatusStep::ReadReason, _) => StatusStep::TestReason,
        (StatusStep::TestReason, StatusAnswer::Yes) => StatusStep::DecodeUtf8,
        (StatusStep::TestReason, _) => StatusStep::AtLeast(400),
        (StatusStep::DecodeUtf8, _) => StatusStep::AtLeast(400),
        (StatusStep::DecodeLatin1, _) => StatusStep::AtLeast(400),
        (StatusStep::AtLeast(bound), StatusAnswer::Yes) => if bound == 400 {
            StatusStep::Below(500)
        } else {
            StatusStep::Below(600)
        },
        (StatusStep::AtLeast(bound), _) => if bound == 400 {
            StatusStep::AtLeast(500)
        } else {
            StatusStep::Return
        },
        (StatusStep::Below(bound), StatusAnswer::Yes) => StatusStep::MakeMessage(
            if bound == 500 {
                StatusError::Client
            } else {
                StatusError::Server
            },
        ),
        (StatusStep::Below(bound), _) => if bound == 500 {
            StatusStep::AtLeast(500)
        } else {
            StatusStep::Return
        },
        (StatusStep::MakeMessage(error), _) => StatusStep::MakeError(error),
        (StatusStep::MakeError(error), _) => StatusStep::RaiseStatus(error),
        (other, _) => other,
    }
}

impl StatusStep {
    /// The first step.
    pub fn first() -> (step: Self)
        ensures
            step == StatusStep::ReadStatus,
    {
        StatusStep::ReadStatus
    }

    /// The step after an answer.
    pub fn raise_for_status_dispatch(self, answer: StatusAnswer) -> (next: Self)
        ensures
            next == status_after(self, answer),
    {
        match (self, answer) {
            (StatusStep::DecodeUtf8, StatusAnswer::Undecodable) => StatusStep::DecodeLatin1,
            (_, StatusAnswer::Undecodable) => StatusStep::Raise,
            (_, StatusAnswer::Raised) => StatusStep::Raise,
            (StatusStep::ReadStatus, _) => StatusStep::ReadReason,
            (StatusStep::ReadReason, _) => StatusStep::TestReason,
            (StatusStep::TestReason, StatusAnswer::Yes) => StatusStep::DecodeUtf8,
            (StatusStep::TestReason, _) => StatusStep::AtLeast(400),
            (StatusStep::DecodeUtf8, _) => StatusStep::AtLeast(400),
            (StatusStep::DecodeLatin1, _) => StatusStep::AtLeast(400),
            (StatusStep::AtLeast(bound), StatusAnswer::Yes) => if bound == 400 {
                StatusStep::Below(500)
            } else {
                StatusStep::Below(600)
            },
            (StatusStep::AtLeast(bound), _) => if bound == 400 {
                StatusStep::AtLeast(500)
            } else {
                StatusStep::Return
            },
            (StatusStep::Below(bound), StatusAnswer::Yes) => StatusStep::MakeMessage(
                if bound == 500 {
                    StatusError::Client
                } else {
                    StatusError::Server
                },
            ),
            (StatusStep::Below(bound), _) => if bound == 500 {
                StatusStep::AtLeast(500)
            } else {
                StatusStep::Return
            },
            (StatusStep::MakeMessage(error), _) => StatusStep::MakeError(error),
            (StatusStep::MakeError(error), _) => StatusStep::RaiseStatus(error),
            (other, _) => other,
        }
    }
}

/// What is so about a response whose status is a number.
pub struct StatusFacts {
    pub status: int,
    pub reason_is_bytes: bool,
    /// The reason is no UTF-8.
    pub undecodable: bool,
}

impl StatusFacts {
    /// Python's answer to a step.
    pub open spec fn answer(self, step: StatusStep) -> StatusAnswer {
        match step {
            StatusStep::TestReason => if self.reason_is_bytes {
                StatusAnswer::Yes
            } else {
                StatusAnswer::No
            },
            StatusStep::DecodeUtf8 => if self.undecodable {
                StatusAnswer::Undecodable
            } else {
                StatusAnswer::Done
            },
            StatusStep::AtLeast(bound) => if bound <= self.status {
                StatusAnswer::Yes
            } else {
                StatusAnswer::No
            },
            StatusStep::Below(bound) => if self.status < bound {
                StatusAnswer::Yes
            } else {
                StatusAnswer::No
            },
            _ => StatusAnswer::Done,
        }
    }
}

/// The last step, up to a number of steps in all.
pub open spec fn status_end(facts: StatusFacts, step: StatusStep, limit: nat) -> StatusStep
    decreases limit,
{
    if limit == 0 || step is Return || step is RaiseStatus || step is Raise {
        step
    } else {
        status_end(facts, status_after(step, facts.answer(step)), (limit - 1) as nat)
    }
}

/// Exactly the statuses from 400 up to 600 are errors: of the client below 500,
/// of the server from there on.
pub proof fn law_statuses_are_told_apart(facts: StatusFacts)
    ensures
        status_end(facts, StatusStep::ReadStatus, 12) == (if 400 <= facts.status < 500 {
            StatusStep::RaiseStatus(StatusError::Client)
        } else if 500 <= facts.status < 600 {
            StatusStep::RaiseStatus(StatusError::Server)
        } else {
            StatusStep::Return
        }),
{
    reveal_with_fuel(status_end, 13);
}

/// How a check of the status ended.
#[derive(Clone, Copy, Debug, PartialEq, Eq, Structural)]
pub enum CheckEnd {
    Returned,
    /// An error of the class for HTTP errors.
    HttpError,
    OtherError,
}

/// Whether a response is in order, or an error that is none of its status.
#[derive(Clone, Copy, Debug, PartialEq, Eq, Structural)]
pub enum Verdict {
    InOrder,
    NotInOrder,
    Raise,
}

/// Whether a response is in order: its status is no error.
pub fn ok_dispatch(end: CheckEnd) -> (verdict: Verdict)
    ensures
        verdict == (match end {
            CheckEnd::Returned => Verdict::InOrder,
            CheckEnd::HttpError => Verdict::NotInOrder,
            CheckEnd::OtherError => Verdict::Raise,
        }),
{
    match end {
        CheckEnd::Returned => Verdict::InOrder,
        CheckEnd::HttpError => Verdict::NotInOrder,
        CheckEnd::OtherError => Verdict::Raise,
    }
}

/// What is done for a question about a response.
#[derive(Clone, Copy, Debug, PartialEq, Eq, Structural)]
pub enum MetadataPlan {
    /// The representation is made from the status.
    Repr,
    /// The status is checked.
    IsOk,
    IsRedirect,
    IsPermanentRedirect,
    NextRequest,
    History,
    RaiseForStatus,
    /// Python's `repr` is called.
    CallRepr,
    /// Python's `bool` is called.
    CallBool,
    /// The attribute of that name is read.
    ReadAttribute,
    /// The method is called.
    CallRaiseForStatus,
    /// There is no such question: an assertion fails, with its name.
    Unknown,
}

/// What Python itself is asked for a question.
pub open spec fn metadata_fallback(operation: Seq<char>) -> MetadataPlan {
    if operation == "repr"@ {
        MetadataPlan::CallRepr
    } else if operation == "bool"@ {
        MetadataPlan::CallBool
    } else if operation == "ok"@ || operation == "is_redirect"@ || operation
        == "is_permanent_redirect"@ || operation == "next"@ || operation == "history"@ {
        MetadataPlan::ReadAttribute
    } else if operation == "raise_for_status"@ {
        MetadataPlan::CallRaiseForStatus
    } else {
        MetadataPlan::Unknown
    }
}

/// What Python itself is asked for a question.
pub fn fallback_metadata(operation: &str) -> (plan: MetadataPlan)
    ensures
        plan == metadata_fallback(operation@),
{
    if same_text(operation, "repr") {
        MetadataPlan::CallRepr
    } else if same_text(operation, "bool") {
        MetadataPlan::CallBool
    } else if same_text(operation, "ok") || same_text(operation, "is_redirect") || same_text(
        operation,
        "is_permanent_redirect",
    ) || same_text(operation, "next") || same_text(operation, "history") {
        MetadataPlan::ReadAttribute
    } else if same_text(operation, "raise_for_status") {
        MetadataPlan::CallRaiseForStatus
    } else {
        MetadataPlan::Unknown
    }
}

/// The task behind a question, and what is done for it natively.
pub open spec fn metadata_task(operation: Seq<char>) -> Option<(ResponseTask, MetadataPlan)> {
    if operation == "repr"@ {
        Some((ResponseTask::Repr, MetadataPlan::Repr))
    } else if operation == "bool"@ {
        Some((ResponseTask::Truth, MetadataPlan::IsOk))
    } else if operation == "ok"@ {
        Some((ResponseTask::IsOk, MetadataPlan::IsOk))
    } else if operation == "is_redirect"@ {
        Some((ResponseTask::IsRedirect, MetadataPlan::IsRedirect))
    } else if operation == "is_permanent_redirect"@ {
        Some((ResponseTask::IsPermanentRedirect, MetadataPlan::IsPermanentRedirect))
    } else if operation == "next"@ {
        Some((ResponseTask::NextRequest, MetadataPlan::NextRequest))
    } else if operation == "raise_for_status"@ {
        Some((ResponseTask::RaiseForStatus, MetadataPlan::RaiseForStatus))
    } else {
        None
    }
}

/// The task behind a question, and what is done for it natively.
fn find_metadata_task(operation: &str) -> (task: Option<(ResponseTask, MetadataPlan)>)
    ensures
        task == metadata_task(operation@),
{
    if same_text(operation, "repr") {
        Some((ResponseTask::Repr, MetadataPlan::Repr))
    } else if same_text(operation, "bool") {
        Some((ResponseTask::Truth, MetadataPlan::IsOk))
    } else if same_text(operation, "ok") {
        Some((ResponseTask::IsOk, MetadataPlan::IsOk))
    } else if same_text(operation, "is_redirect") {
        Some((ResponseTask::IsRedirect, MetadataPlan::IsRedirect))
    } else if same_text(operation, "is_permanent_redirect") {
        Some((ResponseTask::IsPermanentRedirect, MetadataPlan::IsPermanentRedirect))
    } else if same_text(operation, "next") {
        Some((ResponseTask::NextRequest, MetadataPlan::NextRequest))
    } else if same_text(operation, "raise_for_status") {
        Some((ResponseTask::RaiseForStatus, MetadataPlan::RaiseForStatus))
    } else {
        None
    }
}

/// What is done for a question about a response.
pub open spec fn metadata_plan(
    heap: Heap,
    state: ResponseState,
    subject: usize,
    operation: Seq<char>,
) -> Result<MetadataPlan, Failure> {
    match metadata_task(operation) {
        Some((task, plan)) => match is_native(heap, state, subject, task) {
            Err(failure) => Err(failure),
            Ok(true) => Ok(plan),
            Ok(false) => Ok(metadata_fallback(operation)),
        },
        None => if operation == "history"@ {
            Ok(MetadataPlan::History)
        } else {
            Ok(metadata_fallback(operation))
        },
    }
}

/// What is done for a question about a response.
pub fn metadata_dispatch(heap: &Heap, state: &ResponseState, subject: usize, operation: &str) -> (plan:
    Result<MetadataPlan, Failure>)
    requires
        state.well_formed(),
    ensures
        plan == metadata_plan(*heap, *state, subject, operation@),
{
    match find_metadata_task(operation) {
        Some((task, plan)) => match task_is_native(heap, state, subject, task) {
            Err(failure) => Err(failure),
            Ok(true) => Ok(plan),
            Ok(false) => Ok(fallback_metadata(operation)),
        },
        None => if same_text(operation, "history") {
            Ok(MetadataPlan::History)
        } else {
            Ok(fallback_metadata(operation))
        },
    }
}

/// The representation of a response, to be filled with its status.
pub fn repr_template() -> (text: &'static str)
    ensures
        text@ == "<Response [{}]>"@,
{
    "<Response [{}]>"
}

/// Whether a response redirects: it names a location, and its status is listed.
/// Where it names none, the status is not looked at.
pub fn redirects(has_location: bool, status_is_listed: bool) -> (yes: bool)
    ensures
        yes == (has_location && status_is_listed),
{
    has_location && status_is_listed
}

/// The attributes that a pickled response keeps.
pub open spec fn response_attributes() -> Seq<Seq<char>> {
    seq![
        "_content"@,
        "status_code"@,
        "headers"@,
        "url"@,
        "history"@,
        "encoding"@,
        "reason"@,
        "cookies"@,
        "elapsed"@,
        "request"@,
    ]
}

/// The names of the attributes that a pickled response keeps.
fn attribute_names() -> (names: Vec<&'static str>)
    ensures
        crate::adapter_state::name_views(names@) == response_attributes(),
{
    let names: Vec<&'static str> = vec![
        "_content",
        "status_code",
        "headers",
        "url",
        "history",
        "encoding",
        "reason",
        "cookies",
        "elapsed",
        "request",
    ];
    assert(crate::adapter_state::name_views(names@) =~= response_attributes());
    names
}

/// The texts of a list; one that is none, or cannot be read, leaves no answer.
pub open spec fn all_texts(heap: Heap, values: Seq<usize>) -> Option<Seq<Seq<char>>>
    decreases values.len(),
{
    if values.len() == 0 {
        Some(Seq::empty())
    } else {
        match (all_texts(heap, values.drop_last()), heap.text_of(values.last())) {
            (Some(before), Some(text)) => Some(before.push(text)),
            _ => None,
        }
    }
}

/// The texts of a list are as many, and each is that of its value.
proof fn lemma_all_texts(heap: Heap, values: Seq<usize>)
    ensures
        match all_texts(heap, values) {
            Some(texts) => {
                &&& texts.len() == values.len()
                &&& forall|i: int|
                    0 <= i < values.len() ==> heap.text_of(values[i]) == Some(#[trigger] texts[i])
            },
            None => exists|i: int|
                0 <= i < values.len() && heap.text_of(#[trigger] values[i]) is None,
        },
    decreases values.len(),
{
    if values.len() > 0 {
        let shorter = values.drop_last();
        lemma_all_texts(heap, shorter);
        if all_texts(heap, shorter) is None {
            let odd = choose|i: int|
                0 <= i < shorter.len() && heap.text_of(#[trigger] shorter[i]) is None;
            assert(values[odd] == shorter[odd]);
        } else if heap.text_of(values.last()) is None {
            assert(values[values.len() - 1] == values.last());
        } else {
            let texts = all_texts(heap, values).unwrap();
            assert forall|i: int| 0 <= i < values.len() implies heap.text_of(values[i]) == Some(
                #[trigger] texts[i],
            ) by {
                if i < shorter.len() {
                    assert(shorter[i] == values[i]);
                }
            }
        }
    }
}

/// Whether the class still names the attributes that a pickled response keeps.
pub open spec fn attributes_current(heap: Heap, class: usize) -> Check {
    match direct_entry_of(heap, class, "__attrs__"@) {
        Err(failure) => Err(failure),
        Ok(None) => Ok(false),
        Ok(Some(attributes)) => match heap.elements_of(attributes) {
            None => Err(Failure::Kind),
            Some(elements) => match all_texts(heap, elements) {
                None => Err(Failure::Kind),
                Some(texts) => Ok(texts == response_attributes()),
            },
        },
    }
}

/// Whether the class still names the attributes that a pickled response keeps.
pub fn response_attrs_are_current(heap: &Heap, class: usize) -> (check: Check)
    ensures
        check == attributes_current(*heap, class),
{
    let attributes = match raw_direct_type_entry(heap, class, "__attrs__") {
        Err(failure) => {
            return Err(failure);
        },
        Ok(None) => {
            return Ok(false);
        },
        Ok(Some(attributes)) => attributes,
    };
    let elements = match heap.elements(attributes) {
        Some(elements) => elements,
        None => {
            return Err(Failure::Kind);
        },
    };
    proof {
        lemma_all_texts(*heap, elements@);
    }
    let names = attribute_names();
    assert(names@.len() == 10) by {
        assert(crate::adapter_state::name_views(names@).len() == response_attributes().len());
    }
    let mut same = elements.len() == names.len();
    let mut index: usize = 0;
    while index < elements.len()
        invariant
            index <= elements.len(),
            names@.len() == 10,
            direct_entry_of(*heap, class, "__attrs__"@) == Ok::<Option<usize>, Failure>(
                Some(attributes),
            ),
            heap.elements_of(attributes) == Some(elements@),
            crate::adapter_state::name_views(names@) == response_attributes(),
            forall|i: int| 0 <= i < index ==> heap.text_of(#[trigger] elements@[i]) is Some,
            same == (elements@.len() == names@.len() && forall|i: int|
                0 <= i < index ==> heap.text_of(#[trigger] elements@[i]) == Some(
                    response_attributes()[i],
                )),
        decreases elements.len() - index,
    {
        match heap.text(elements[index]) {
            None => {
                assert(heap.text_of(elements@[index as int]) is None);
                proof {
                    lemma_all_texts(*heap, elements@);
                    if all_texts(*heap, elements@) is Some {
                        let texts = all_texts(*heap, elements@).unwrap();
                        assert(heap.text_of(elements@[index as int]) == Some(texts[index as int]));
                    }
                }
                return Err(Failure::Kind);
            },
            Some(text) => {
                if same {
                    assert(response_attributes()[index as int] == names@[index as int]@) by {
                        assert(crate::adapter_state::name_views(names@)[index as int]
                            == names@[index as int]@);
                    }
                    if !same_text(text.as_str(), names[index]) {
                        assert(heap.text_of(elements@[index as int]) != Some(
                            response_attributes()[index as int],
                        ));
                        same = false;
                    }
                }
            },
        }
        index = index + 1;
    }
    proof {
        let texts = all_texts(*heap, elements@).unwrap();
        if same {
            assert forall|i: int| 0 <= i < texts.len() implies texts[i]
                == response_attributes()[i] by {
                assert(heap.text_of(elements@[i]) == Some(texts[i]));
            }
            assert(texts =~= response_attributes());
        } else if texts == response_attributes() {
            assert forall|i: int| 0 <= i < elements@.len() implies heap.text_of(
                #[trigger] elements@[i],
            ) == Some(response_attributes()[i]) by {
                assert(heap.text_of(elements@[i]) == Some(texts[i]));
            }
        }
    }
    Ok(same)
}

/// Whether the state of a response is read natively.
pub open spec fn get_state_is_native(heap: Heap, state: ResponseState, subject: usize) -> Check {
    both(
        is_native(heap, state, subject, ResponseTask::GetState),
        attributes_current(heap, crate::cookie_shape::class_at(heap, subject)),
    )
}

/// Whether the state of a response is read natively.
pub fn pickle_get_is_native(heap: &Heap, state: &ResponseState, subject: usize) -> (check: Check)
    requires
        state.well_formed(),
    ensures
        check == get_state_is_native(*heap, *state, subject),
{
    match task_is_native(heap, state, subject, ResponseTask::GetState) {
        Ok(true) => {},
        other => {
            return other;
        },
    }
    let class = match heap.get(subject) {
        Some(found) => found.class,
        None => 0,
    };
    response_attrs_are_current(heap, class)
}

/// What is done with the state of a response.
#[derive(Clone, Copy, Debug, PartialEq, Eq, Structural)]
pub enum PickleOperation {
    Get,
    Put,
    /// There is no such operation: an assertion fails, with its name.
    Unknown,
}

/// What is done with the state of a response.
pub fn pickle_operation(name: &str) -> (operation: PickleOperation)
    ensures
        operation == (if name@ == "get"@ {
            PickleOperation::Get
        } else if name@ == "set"@ {
            PickleOperation::Put
        } else {
            PickleOperation::Unknown
        }),
{
    if same_text(name, "get") {
        PickleOperation::Get
    } else if same_text(name, "set") {
        PickleOperation::Put
    } else {
        PickleOperation::Unknown
    }
}

/// A step of reading the state of a response, or of giving it one.
#[derive(Clone, Copy, Debug, PartialEq, Eq, Structural)]
pub enum PickleStep {
    /// Whether the response is marked as consumed.
    TestConsumed,
    ReadContent,
    /// The kept attributes are copied.
    CopyAttributes,
    /// The copies are returned.
    ReturnState,
    /// What the state holds is set on the response.
    SetAttributes,
    MarkConsumed,
    /// The raw stream is given up.
    ClearRaw,
    /// `None` is returned.
    Return,
    Raise,
}

/// What Python answers to a step of pickling.
#[derive(Clone, Copy, Debug, PartialEq, Eq, Structural)]
pub enum PickleAnswer {
    Yes,
    No,
    Done,
    Raised,
}

/// The first step of an operation.
pub open spec fn pickle_begin(operation: PickleOperation) -> PickleStep {
    match operation {
        PickleOperation::Get => PickleStep::TestConsumed,
        PickleOperation::Put => PickleStep::SetAttributes,
        PickleOperation::Unknown => PickleStep::Raise,
    }
}

/// The step after an answer.
pub open spec fn pickle_after(step: PickleStep, answer: PickleAnswer) -> PickleStep {
    match (step, answer) {
        (_, PickleAnswer::Raised) => PickleStep::Raise,
        (PickleStep::TestConsumed, PickleAnswer::Yes) => PickleStep::CopyAttributes,
        (PickleStep::TestConsumed, _) => PickleStep::ReadContent,
        (PickleStep::ReadContent, _) => PickleStep::CopyAttributes,
        (PickleStep::CopyAttributes, _) => PickleStep::ReturnState,
        (PickleStep::SetAttributes, _) => PickleStep::MarkConsumed,
        (PickleStep::MarkConsumed, _) => PickleStep::ClearRaw,
        (PickleStep::ClearRaw, _) => PickleStep::Return,
        (other, _) => other,
    }
}

impl PickleStep {
    /// The first step of an operation.
    pub fn first(operation: PickleOperation) -> (step: Self)
        ensures
            step == pickle_begin(operation),
    {
        match operation {
            PickleOperation::Get => PickleStep::TestConsumed,
            PickleOperation::Put => PickleStep::SetAttributes,
            PickleOperation::Unknown => PickleStep::Raise,
        }
    }

    /// The step after an answer.
    pub fn pickle_dispatch(self, answer: PickleAnswer) -> (next: Self)
        ensures
            next == pickle_after(self, answer),
    {
        match (self, answer) {
            (_, PickleAnswer::Raised) => PickleStep::Raise,
            (PickleStep::TestConsumed, PickleAnswer::Yes) => PickleStep::CopyAttributes,
            (PickleStep::TestConsumed, _) => PickleStep::ReadContent,
            (PickleStep::ReadContent, _) => PickleStep::CopyAttributes,
            (PickleStep::CopyAttributes, _) => PickleStep::ReturnState,
            (PickleStep::SetAttributes, _) => PickleStep::MarkConsumed,
            (PickleStep::MarkConsumed, _) => PickleStep::ClearRaw,
            (PickleStep::ClearRaw, _) => PickleStep::Return,
            (other, _) => other,
        }
    }
}

/// What an attribute of a response holds.
pub enum Held {
    Object(usize),
    Truth,
    Nothing,
}

/// Attributes after those of a state were set, one by one.
pub open spec fn set_each(attributes: Map<Seq<char>, Held>, state: Seq<(Seq<char>, usize)>) -> Map<
    Seq<char>,
    Held,
>
    decreases state.len(),
{
    if state.len() == 0 {
        attributes
    } else {
        set_each(attributes, state.drop_last()).insert(state.last().0, Held::Object(state.last().1))
    }
}

/// The attributes of a response after a step.
pub open spec fn pickle_effect(
    step: PickleStep,
    attributes: Map<Seq<char>, Held>,
    state: Seq<(Seq<char>, usize)>,
) -> Map<Seq<char>, Held> {
    match step {
        PickleStep::SetAttributes => set_each(attributes, state),
        PickleStep::MarkConsumed => attributes.insert("_content_consumed"@, Held::Truth),
        PickleStep::ClearRaw => attributes.insert("raw"@, Held::Nothing),
        _ => attributes,
    }
}

/// The attributes of a response after a number of steps from a step on, each
/// carried out.
pub open spec fn restored(
    step: PickleStep,
    attributes: Map<Seq<char>, Held>,
    state: Seq<(Seq<char>, usize)>,
    limit: nat,
) -> Map<Seq<char>, Held>
    decreases limit,
{
    if limit == 0 {
        attributes
    } else {
        restored(
            pickle_after(step, PickleAnswer::Done),
            pickle_effect(step, attributes, state),
            state,
            (limit - 1) as nat,
        )
    }
}

/// A restored response has the attributes of its state, but it counts as
/// consumed and has no raw stream, whatever the state says of these; further
/// steps change nothing.
pub proof fn law_restored_responses_are_consumed(
    attributes: Map<Seq<char>, Held>,
    state: Seq<(Seq<char>, usize)>,
    limit: nat,
)
    requires
        limit >= 3,
    ensures
        restored(pickle_begin(PickleOperation::Put), attributes, state, limit) == set_each(
            attributes,
            state,
        ).insert("_content_consumed"@, Held::Truth).insert("raw"@, Held::Nothing),
        "_content_consumed"@ != "raw"@,
{
    reveal_strlit("_content_consumed");
    reveal_strlit("raw");
    reveal_with_fuel(restored, 4);
    assert("_content_consumed"@.len() != "raw"@.len());
    let whole = set_each(attributes, state).insert("_content_consumed"@, Held::Truth).insert(
        "raw"@,
        Held::Nothing,
    );
    lemma_restored(whole, state, (limit - 3) as nat);
}

/// A response whose restoring has ended stays as it is.
proof fn lemma_restored(
    attributes: Map<Seq<char>, Held>,
    state: Seq<(Seq<char>, usize)>,
    limit: nat,
)
    ensures
        restored(PickleStep::Return, attributes, state, limit) == attributes,
    decreases limit,
{
    if limit > 0 {
        lemma_restored(attributes, state, (limit - 1) as nat);
    }
}

/// The content of a response is read before its attributes are copied, exactly
/// where it was not consumed.
pub proof fn law_state_holds_the_content(consumed: bool)
    ensures
        ({
            let answer = if consumed {
                PickleAnswer::Yes
            } else {
                PickleAnswer::No
            };
            let next = pickle_after(pickle_begin(PickleOperation::Get), answer);
            &&& next == (if consumed {
                PickleStep::CopyAttributes
            } else {
                PickleStep::ReadContent
            })
            &&& pickle_after(PickleStep::ReadContent, PickleAnswer::Done)
                == PickleStep::CopyAttributes
            &&& pickle_after(PickleStep::CopyAttributes, PickleAnswer::Done)
                == PickleStep::ReturnState
        }),
{
}

/// A step of closing a response.
#[derive(Clone, Copy, Debug, PartialEq, Eq, Structural)]
pub enum CloseStep {
    /// Whether the response is marked as consumed.
    TestConsumed,
    /// The raw stream is closed.
    CloseRaw,
    ReadRaw,
    /// The way to release the connection is looked for.
    FindRelease,
    /// Whether it is `None`.
    TestRelease,
    Release,
    Return,
    Raise,
}

/// What Python answers to a step of closing.
#[derive(Clone, Copy, Debug, PartialEq, Eq, Structural)]
pub enum CloseAnswer {
    Yes,
    No,
    Done,
    /// The attribute is missing.
    Missing,
    Raised,
}

/// The step after an answer.
pub open spec fn close_after(step: CloseStep, answer: CloseAnswer) -> CloseStep {
    match (step, answer) {
        (CloseStep::FindRelease, CloseAnswer::Missing) => CloseStep::Return,
        (_, CloseAnswer::Missing) => CloseStep::Raise,
        (_, CloseAnswer::Raised) => CloseStep::Raise,
        (CloseStep::TestConsumed, CloseAnswer::Yes) => CloseStep::ReadRaw,
        (CloseStep::TestConsumed, _) => CloseStep::CloseRaw,
        (CloseStep::CloseRaw, _) => CloseStep::ReadRaw,
        (CloseStep::ReadRaw, _) => CloseStep::FindRelease,
        (CloseStep::FindRelease, _) => CloseStep::TestRelease,
        (CloseStep::TestRelease, CloseAnswer::Yes) => CloseStep::Return,
        (CloseStep::TestRelease, _) => CloseStep::Release,
        (CloseStep::Release, _) => CloseStep::Return,
        (other, _) => other,
    }
}

impl CloseStep {
    /// The first step.
    pub fn first() -> (step: Self)
        ensures
            step == CloseStep::TestConsumed,
    {
        CloseStep::TestConsumed
    }

    /// The step after an answer.
    pub fn close_dispatch(self, answer: CloseAnswer) -> (next: Self)
        ensures
            next == close_after(self, answer),
    {
        match (self, answer) {
            (CloseStep::FindRelease, CloseAnswer::Missing) => CloseStep::Return,
            (_, CloseAnswer::Missing) => CloseStep::Raise,
            (_, CloseAnswer::Raised) => CloseStep::Raise,
            (CloseStep::TestConsumed, CloseAnswer::Yes) => CloseStep::ReadRaw,
            (CloseStep::TestConsumed, _) => CloseStep::CloseRaw,
            (CloseStep::CloseRaw, _) => CloseStep::ReadRaw,
            (CloseStep::ReadRaw, _) => CloseStep::FindRelease,
            (CloseStep::FindRelease, _) => CloseStep::TestRelease,
            (CloseStep::TestRelease, CloseAnswer::Yes) => CloseStep::Return,
            (CloseStep::TestRelease, _) => CloseStep::Release,
            (CloseStep::Release, _) => CloseStep::Return,
            (other, _) => other,
        }
    }
}

/// What is so about a response that is closed.
pub struct CloseFacts {
    pub consumed: bool,
    pub has_release: bool,
    pub release_is_none: bool,
}

impl CloseFacts {
    /// Python's answer to a step.
    pub open spec fn answer(self, step: CloseStep) -> CloseAnswer {
        match step {
            CloseStep::TestConsumed => if self.consumed {
                CloseAnswer::Yes
            } else {
                CloseAnswer::No
            },
            CloseStep::FindRelease => if self.has_release {
                CloseAnswer::Done
            } else {
                CloseAnswer::Missing
            },
            CloseStep::TestRelease => if self.release_is_none {
                CloseAnswer::Yes
            } else {
                CloseAnswer::No
            },
            _ => CloseAnswer::Done,
        }
    }
}

/// The calls that closing makes, up to a number of steps in all.
pub open spec fn close_course(facts: CloseFacts, step: CloseStep, limit: nat) -> Seq<CloseStep>
    decreases limit,
{
    if limit == 0 || step is Return || step is Raise {
        Seq::empty()
    } else {
        let rest = close_course(facts, close_after(step, facts.answer(step)), (limit - 1) as nat);
        if step is CloseRaw || step is Release {
            seq![step] + rest
        } else {
            rest
        }
    }
}

/// Closing closes the raw stream exactly where it was not consumed, and then
/// releases the connection wherever that can be done.
pub proof fn law_closing_releases_the_connection(facts: CloseFacts)
    ensures
        close_course(facts, CloseStep::TestConsumed, 8) == (if facts.consumed {
            Seq::empty()
        } else {
            seq![CloseStep::CloseRaw]
        }) + (if facts.has_release && !facts.release_is_none {
            seq![CloseStep::Release]
        } else {
            Seq::empty()
        }),
{
    reveal_with_fuel(close_course, 9);
    let none = Seq::<CloseStep>::empty();
    let closed = seq![CloseStep::CloseRaw];
    let released = seq![CloseStep::Release];
    assert(none + none =~= none);
    assert(none + released =~= released);
    assert(released + none =~= released);
    assert(closed + none =~= closed);
}

/// What is done with a response before it is dropped.
#[derive(Clone, Copy, Debug, PartialEq, Eq, Structural)]
pub enum DropPlan {
    Nothing,
    /// One piece is read.
    ReadOne,
    /// Every piece is read.
    ReadAll,
    /// The content is read.
    ReadContent,
    /// There is no such operation: an assertion fails, with its name.
    Unknown,
}

/// What is done with a response before it is dropped.
pub fn drop_plan(operation: &str) -> (plan: DropPlan)
    ensures
        plan == (if operation@ == "untouched"@ {
            DropPlan::Nothing
        } else if operation@ == "partial"@ || operation@ == "failed"@ {
            DropPlan::ReadOne
        } else if operation@ == "exhausted"@ {
            DropPlan::ReadAll
        } else if operation@ == "cached"@ {
            DropPlan::ReadContent
        } else {
            DropPlan::Unknown
        }),
{
    if same_text(operation, "untouched") {
        DropPlan::Nothing
    } else if same_text(operation, "partial") || same_text(operation, "failed") {
        DropPlan::ReadOne
    } else if same_text(operation, "exhausted") {
        DropPlan::ReadAll
    } else if same_text(operation, "cached") {
        DropPlan::ReadContent
    } else {
        DropPlan::Unknown
    }
}

/// How a value is recorded.
#[derive(Clone, Copy, Debug, PartialEq, Eq, Structural)]
pub enum RecordKind {
    Nothing,
    /// The tag `bytes` and the hexadecimal digits.
    Bytes,
    /// The tag `str` and the value.
    Text,
    /// The value itself.
    Number,
    /// The tag `opaque` and the type's module and qualified name.
    Opaque,
}

/// Whether a value is an instance of a class.
pub open spec fn is_instance(heap: Heap, value: usize, class: usize) -> bool {
    match heap.at(value) {
        Some(found) => derives_from(heap, found.class, class),
        None => false,
    }
}

/// Whether a value is an instance of a class.
fn instance(heap: &Heap, value: usize, class: usize) -> (yes: bool)
    ensures
        yes == is_instance(*heap, value, class),
{
    match heap.get(value) {
        Some(found) => is_subclass(heap, found.class, class),
        None => false,
    }
}

/// How a value is recorded.
pub open spec fn record_kind(heap: Heap, value: usize) -> RecordKind {
    if heap.is_none_value(value) {
        RecordKind::Nothing
    } else if is_instance(heap, value, heap.intrinsics.bytes) {
        RecordKind::Bytes
    } else if is_instance(heap, value, heap.intrinsics.text) {
        RecordKind::Text
    } else if is_instance(heap, value, heap.intrinsics.boolean) || is_instance(
        heap,
        value,
        heap.intrinsics.int,
    ) {
        RecordKind::Number
    } else {
        RecordKind::Opaque
    }
}

/// How a value is recorded.
pub fn value_record(heap: &Heap, value: usize) -> (kind: RecordKind)
    ensures
        kind == record_kind(*heap, value),
{
    if heap.none_value(value) {
        RecordKind::Nothing
    } else if instance(heap, value, heap.intrinsics.bytes) {
        RecordKind::Bytes
    } else if instance(heap, value, heap.intrinsics.text) {
        RecordKind::Text
    } else if instance(heap, value, heap.intrinsics.boolean) || instance(
        heap,
        value,
        heap.intrinsics.int,
    ) {
        RecordKind::Number
    } else {
        RecordKind::Opaque
    }
}

/// Something that happens to a response.
#[derive(Clone, Copy, Debug, PartialEq, Eq, Structural)]
pub enum ResponseEvent {
    Partial,
    CleanEof,
    Close,
    Drop,
    ReadError,
    DecodeError,
    ProtocolError,
    Cancel,
    ActionDisconnect,
    ReplyDisconnect,
    PythonExact,
}

/// The event of a name.
pub open spec fn event_named(name: Seq<char>) -> Option<ResponseEvent> {
    if name == "partial"@ {
        Some(ResponseEvent::Partial)
    } else if name == "clean-eof"@ {
        Some(ResponseEvent::CleanEof)
    } else if name == "close"@ {
        Some(ResponseEvent::Close)
    } else if name == "drop"@ {
        Some(ResponseEvent::Drop)
    } else if name == "read-error"@ {
        Some(ResponseEvent::ReadError)
    } else if name == "decode-error"@ {
        Some(ResponseEvent::DecodeError)
    } else if name == "protocol-error"@ {
        Some(ResponseEvent::ProtocolError)
    } else if name == "cancel"@ {
        Some(ResponseEvent::Cancel)
    } else if name == "action-disconnect"@ {
        Some(ResponseEvent::ActionDisconnect)
    } else if name == "reply-disconnect"@ {
        Some(ResponseEvent::ReplyDisconnect)
    } else if name == "python-exact"@ {
        Some(ResponseEvent::PythonExact)
    } else {
        None
    }
}

/// The event of a name, or the message that there is none.
pub fn response_event(name: &str) -> (event: Result<ResponseEvent, String>)
    ensures
        match event {
            Ok(event) => event_named(name@) == Some(event),
            Err(message) => event_named(name@) is None && message@ == "unknown response event: "@
                + name@,
        },
{
    if same_text(name, "partial") {
        Ok(ResponseEvent::Partial)
    } else if same_text(name, "clean-eof") {
        Ok(ResponseEvent::CleanEof)
    } else if same_text(name, "close") {
        Ok(ResponseEvent::Close)
    } else if same_text(name, "drop") {
        Ok(ResponseEvent::Drop)
    } else if same_text(name, "read-error") {
        Ok(ResponseEvent::ReadError)
    } else if same_text(name, "decode-error") {
        Ok(ResponseEvent::DecodeError)
    } else if same_text(name, "protocol-error") {
        Ok(ResponseEvent::ProtocolError)
    } else if same_text(name, "cancel") {
        Ok(ResponseEvent::Cancel)
    } else if same_text(name, "action-disconnect") {
        Ok(ResponseEvent::ActionDisconnect)
    } else if same_text(name, "reply-disconnect") {
        Ok(ResponseEvent::ReplyDisconnect)
    } else if same_text(name, "python-exact") {
        Ok(ResponseEvent::PythonExact)
    } else {
        let mut message = String::from_str("unknown response event: ");
        message.append(name);
        Err(message)
    }
}

/// All steps of the check of a status.
pub open spec fn status_steps(facts: StatusFacts, step: StatusStep, limit: nat) -> Seq<StatusStep>
    decreases limit,
{
    if limit == 0 || step is Return || step is RaiseStatus || step is Raise {
        seq![step]
    } else {
        seq![step] + status_steps(facts, status_after(step, facts.answer(step)), (limit - 1) as nat)
    }
}

/// The steps at which a reason is decoded.
pub open spec fn decodings(facts: StatusFacts) -> Seq<StatusStep> {
    if !facts.reason_is_bytes {
        Seq::empty()
    } else if facts.undecodable {
        seq![StatusStep::DecodeUtf8, StatusStep::DecodeLatin1]
    } else {
        seq![StatusStep::DecodeUtf8]
    }
}

/// A reason that is bytes is decoded before it is shown, as UTF-8 and where that
/// fails as ISO 8859-1; another is taken as it is. An error is raised after its
/// message and itself were made, for one range of statuses as one of the client
/// and for another as one of the server.
pub proof fn law_the_check_of_a_status_takes_its_course(facts: StatusFacts)
    ensures
        ({
            let start = seq![
                StatusStep::ReadStatus,
                StatusStep::ReadReason,
                StatusStep::TestReason,
            ] + decodings(facts);
            status_steps(facts, StatusStep::ReadStatus, 12) == start + (if facts.status < 400 {
                seq![StatusStep::AtLeast(400), StatusStep::AtLeast(500), StatusStep::Return]
            } else if facts.status < 500 {
                seq![
                    StatusStep::AtLeast(400),
                    StatusStep::Below(500),
                    StatusStep::MakeMessage(StatusError::Client),
                    StatusStep::MakeError(StatusError::Client),
                    StatusStep::RaiseStatus(StatusError::Client),
                ]
            } else if facts.status < 600 {
                seq![
                    StatusStep::AtLeast(400),
                    StatusStep::Below(500),
                    StatusStep::AtLeast(500),
                    StatusStep::Below(600),
                    StatusStep::MakeMessage(StatusError::Server),
                    StatusStep::MakeError(StatusError::Server),
                    StatusStep::RaiseStatus(StatusError::Server),
                ]
            } else {
                seq![
                    StatusStep::AtLeast(400),
                    StatusStep::Below(500),
                    StatusStep::AtLeast(500),
                    StatusStep::Below(600),
                    StatusStep::Return,
                ]
            })
        }),
        forall|step: StatusStep| #[trigger] status_after(step, StatusAnswer::Raised) is Raise,
{
    reveal_with_fuel(status_steps, 13);
    let start = seq![StatusStep::ReadStatus, StatusStep::ReadReason, StatusStep::TestReason]
        + decodings(facts);
    let steps = status_steps(facts, StatusStep::ReadStatus, 12);
    if facts.status < 400 {
        assert(steps =~= start + seq![
            StatusStep::AtLeast(400),
            StatusStep::AtLeast(500),
            StatusStep::Return,
        ]);
    } else if facts.status < 500 {
        assert(steps =~= start + seq![
            StatusStep::AtLeast(400),
            StatusStep::Below(500),
            StatusStep::MakeMessage(StatusError::Client),
            StatusStep::MakeError(StatusError::Client),
            StatusStep::RaiseStatus(StatusError::Client),
        ]);
    } else if facts.status < 600 {
        assert(steps =~= start + seq![
            StatusStep::AtLeast(400),
            StatusStep::Below(500),
            StatusStep::AtLeast(500),
            StatusStep::Below(600),
            StatusStep::MakeMessage(StatusError::Server),
            StatusStep::MakeError(StatusError::Server),
            StatusStep::RaiseStatus(StatusError::Server),
        ]);
    } else {
        assert(steps =~= start + seq![
            StatusStep::AtLeast(400),
            StatusStep::Below(500),
            StatusStep::AtLeast(500),
            StatusStep::Below(600),
            StatusStep::Return,
        ]);
    }
}

/// A question about a response is answered natively by its own answer, where that
/// is possible, and else Python is asked the same question.
pub proof fn law_questions_keep_their_meaning(
    heap: Heap,
    state: ResponseState,
    subject: usize,
    operation: Seq<char>,
)
    ensures
        metadata_plan(heap, state, subject, operation) matches Ok(plan) ==> {
            &&& plan is Repr || plan is CallRepr ==> operation == "repr"@
            &&& plan is CallBool ==> operation == "bool"@
            &&& plan is IsOk ==> operation == "ok"@ || operation == "bool"@
            &&& plan is IsRedirect ==> operation == "is_redirect"@
            &&& plan is IsPermanentRedirect ==> operation == "is_permanent_redirect"@
            &&& plan is NextRequest ==> operation == "next"@
            &&& plan is History ==> operation == "history"@
            &&& plan is RaiseForStatus || plan is CallRaiseForStatus ==> operation
                == "raise_for_status"@
            &&& plan is ReadAttribute ==> operation == "ok"@ || operation == "is_redirect"@
                || operation == "is_permanent_redirect"@ || operation == "next"@ || operation
                == "history"@
            &&& plan is Unknown <==> operation != "repr"@ && operation != "bool"@ && operation
                != "ok"@ && operation != "is_redirect"@ && operation != "is_permanent_redirect"@
                && operation != "next"@ && operation != "history"@ && operation
                != "raise_for_status"@
            &&& plan is Repr ==> is_native(heap, state, subject, ResponseTask::Repr) == Ok::<
                bool,
                Failure,
            >(true)
            &&& plan is IsRedirect ==> is_native(heap, state, subject, ResponseTask::IsRedirect)
                == Ok::<bool, Failure>(true)
            &&& plan is IsPermanentRedirect ==> is_native(
                heap,
                state,
                subject,
                ResponseTask::IsPermanentRedirect,
            ) == Ok::<bool, Failure>(true)
            &&& plan is NextRequest ==> is_native(heap, state, subject, ResponseTask::NextRequest)
                == Ok::<bool, Failure>(true)
            &&& plan is RaiseForStatus ==> is_native(
                heap,
                state,
                subject,
                ResponseTask::RaiseForStatus,
            ) == Ok::<bool, Failure>(true)
            &&& plan is IsOk ==> is_native(heap, state, subject, ResponseTask::IsOk) == Ok::<
                bool,
                Failure,
            >(true) || is_native(heap, state, subject, ResponseTask::Truth) == Ok::<bool, Failure>(
                true,
            )
            &&& plan is CallRepr ==> is_native(heap, state, subject, ResponseTask::Repr) == Ok::<
                bool,
                Failure,
            >(false)
            &&& plan is CallBool ==> is_native(heap, state, subject, ResponseTask::Truth) == Ok::<
                bool,
                Failure,
            >(false)
            &&& plan is CallRaiseForStatus ==> is_native(
                heap,
                state,
                subject,
                ResponseTask::RaiseForStatus,
            ) == Ok::<bool, Failure>(false)
        },
{
}

/// The attributes of a class are current exactly where the class lists the ten
/// that a response is pickled by, in this order.
pub proof fn law_pickled_attributes_are_these_ten(heap: Heap, class: usize)
    ensures
        response_attributes().len() == 10,
        response_attributes().contains("_content"@),
        response_attributes().contains("status_code"@),
        response_attributes().contains("headers"@),
        response_attributes().contains("url"@),
        response_attributes().contains("history"@),
        response_attributes().contains("encoding"@),
        response_attributes().contains("reason"@),
        response_attributes().contains("cookies"@),
        response_attributes().contains("elapsed"@),
        response_attributes().contains("request"@),
        attributes_current(heap, class) == Ok::<bool, Failure>(true) ==> (direct_entry_of(
            heap,
            class,
            "__attrs__"@,
        ) matches Ok(Some(attributes)) && heap.elements_of(attributes) matches Some(elements)
            && elements.len() == 10 && forall|index: int|
            0 <= index < 10 ==> heap.text_of(elements[index]) == Some(
                #[trigger] response_attributes()[index],
            )),
{
    let names = response_attributes();
    assert(names[0] == "_content"@ && names[1] == "status_code"@ && names[2] == "headers"@
        && names[3] == "url"@ && names[4] == "history"@ && names[5] == "encoding"@ && names[6]
        == "reason"@ && names[7] == "cookies"@ && names[8] == "elapsed"@ && names[9]
        == "request"@);
    if attributes_current(heap, class) == Ok::<bool, Failure>(true) {
        let attributes = direct_entry_of(heap, class, "__attrs__"@)->Ok_0->Some_0;
        let elements = heap.elements_of(attributes)->Some_0;
        lemma_all_texts(heap, elements);
    }
}

/// All steps of closing a response.
pub open spec fn close_steps(facts: CloseFacts, step: CloseStep, limit: nat) -> Seq<CloseStep>
    decreases limit,
{
    if limit == 0 || step is Return || step is Raise {
        seq![step]
    } else {
        seq![step] + close_steps(facts, close_after(step, facts.answer(step)), (limit - 1) as nat)
    }
}

/// A response that was not consumed has its raw stream closed first. The way to
/// release the connection is looked for on the raw stream, and used where there is
/// one. An error ends the closing.
pub proof fn law_closing_takes_its_course(facts: CloseFacts)
    ensures
        close_steps(facts, CloseStep::TestConsumed, 8) == seq![CloseStep::TestConsumed] + (
        if facts.consumed {
            Seq::empty()
        } else {
            seq![CloseStep::CloseRaw]
        }) + seq![CloseStep::ReadRaw, CloseStep::FindRelease] + (if !facts.has_release {
            seq![CloseStep::Return]
        } else if facts.release_is_none {
            seq![CloseStep::TestRelease, CloseStep::Return]
        } else {
            seq![CloseStep::TestRelease, CloseStep::Release, CloseStep::Return]
        }),
        forall|step: CloseStep| #[trigger] close_after(step, CloseAnswer::Raised) is Raise,
{
    reveal_with_fuel(close_steps, 9);
    assert(close_steps(facts, CloseStep::TestConsumed, 8) =~= seq![CloseStep::TestConsumed] + (
    if facts.consumed {
        Seq::empty()
    } else {
        seq![CloseStep::CloseRaw]
    }) + seq![CloseStep::ReadRaw, CloseStep::FindRelease] + (if !facts.has_release {
        seq![CloseStep::Return]
    } else if facts.release_is_none {
        seq![CloseStep::TestRelease, CloseStep::Return]
    } else {
        seq![CloseStep::TestRelease, CloseStep::Release, CloseStep::Return]
    }));
}

/// An error ends pickling, in both directions, and an unknown request is refused
/// at once.
pub proof fn law_errors_end_pickling(step: PickleStep)
    ensures
        pickle_after(step, PickleAnswer::Raised) is Raise,
        pickle_begin(PickleOperation::Unknown) is Raise,
        pickle_begin(PickleOperation::Get) is TestConsumed,
        pickle_begin(PickleOperation::Put) is SetAttributes,
{
}

/// A value is recorded as what it is, derived classes included: bytes and texts as
/// such, truth values and integers as numbers, `None` as nothing, and everything
/// else by its type.
pub proof fn law_values_are_recorded_as_they_are(heap: Heap, value: usize)
    ensures
        record_kind(heap, value) is Nothing <==> heap.is_none_value(value),
        !heap.is_none_value(value) ==> (heap.at(value) matches Some(found) ==> {
            let bases = heap.mro_of(found.class);
            &&& record_kind(heap, value) is Bytes <==> bases.contains(heap.intrinsics.bytes)
            &&& record_kind(heap, value) is Text <==> bases.contains(heap.intrinsics.text)
                && !bases.contains(heap.intrinsics.bytes)
            &&& record_kind(heap, value) is Number <==> (bases.contains(heap.intrinsics.boolean)
                || bases.contains(heap.intrinsics.int)) && !bases.contains(heap.intrinsics.bytes)
                && !bases.contains(heap.intrinsics.text)
        }),
{
}

/// A name stands for one event of a response only.
pub proof fn law_names_of_events(name: Seq<char>)
    ensures
        event_named(name) == Some(ResponseEvent::Partial) ==> name == "partial"@,
        event_named(name) == Some(ResponseEvent::CleanEof) ==> name == "clean-eof"@,
        event_named(name) == Some(ResponseEvent::Close) ==> name == "close"@,
        event_named(name) == Some(ResponseEvent::Drop) ==> name == "drop"@,
        event_named(name) == Some(ResponseEvent::ReadError) ==> name == "read-error"@,
        event_named(name) == Some(ResponseEvent::DecodeError) ==> name == "decode-error"@,
        event_named(name) == Some(ResponseEvent::ProtocolError) ==> name == "protocol-error"@,
        event_named(name) == Some(ResponseEvent::Cancel) ==> name == "cancel"@,
        event_named(name) == Some(ResponseEvent::ActionDisconnect) ==> name == "action-disconnect"@,
        event_named(name) == Some(ResponseEvent::ReplyDisconnect) ==> name == "reply-disconnect"@,
        event_named(name) == Some(ResponseEvent::PythonExact) ==> name == "python-exact"@,
        event_named(name) is None ==> name != "partial"@ && name != "clean-eof"@ && name != "close"@
            && name != "drop"@ && name != "read-error"@ && name != "decode-error"@ && name
            != "protocol-error"@ && name != "cancel"@ && name != "action-disconnect"@ && name
            != "reply-disconnect"@ && name != "python-exact"@,
{
}

/// Each status error has its own message.
pub proof fn law_messages_of_status_error()
    ensures
        StatusError::Client.template() == "{} Client Error: {} for url: {}"@,
        StatusError::Server.template() == "{} Server Error: {} for url: {}"@,
{
}

/// A value is an instance of a class exactly where there is such a value and its
/// own class derives from that class.
pub proof fn law_instances_of_classes(heap: Heap, value: usize, class: usize)
    ensures
        is_instance(heap, value, class) <==> (heap.at(value) matches Some(found) && derives_from(
            heap,
            found.class,
            class,
        )),
{
}

} // verus!
