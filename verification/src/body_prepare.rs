//! Preparation of a request's body, its length and its rewinding, in the order
//! of Python's own code.

use vstd::prelude::*;
use vstd::string::StringExecFns;

use crate::body_stream::AdapterFailure;
use crate::canonical::{canonical_function_is, CanonicalFunction, DefaultPolicy};
use crate::canonical::is_canonical;
use crate::canonical_build::{build_canonical_function, Source};
use crate::canonical_build::{all_functions, is_buildable, is_built};
use crate::heap::{Check, Failure, Heap};
use crate::heap::both;
use crate::model_state::{
    raw_module_entry_is, required_module_entry, required_raw_type_entry,
    trusted_bound_method_with_callable, Anchor, ModelsState,
};
use crate::model_state::{entry_is, entry_of_type, held_by, is_trusted_method};
use crate::text::{render_decimal, same_text};
use crate::text::{decimal, text_views};

verus! {

/// The name spaces that a function's globals are looked up in.
#[derive(Clone, Copy, Debug, PartialEq, Eq, Structural)]
pub struct GlobalResolver {
    pub globals: usize,
    pub builtins: usize,
}

impl GlobalResolver {
    /// The name spaces of a function; no answer where they are no dicts.
    pub open spec fn of_function(heap: Heap, function: usize) -> Result<GlobalResolver, Failure> {
        match (
            heap.attribute_of(function, "__globals__"@),
            heap.attribute_of(function, "__builtins__"@),
        ) {
            (Some(globals), Some(builtins)) => if crate::canonical::is_function(heap, function)
                && heap.dict_of(globals) is Some && heap.dict_of(builtins) is Some {
                Ok(GlobalResolver { globals, builtins })
            } else {
                Err(Failure::Kind)
            },
            _ => Err(Failure::Attribute),
        }
    }

    /// The name spaces of a function.
    pub fn from_function(heap: &Heap, function: usize) -> (resolver: Result<GlobalResolver, Failure>)
        ensures
            resolver == Self::of_function(*heap, function),
    {
        match (heap.attribute(function, "__globals__"), heap.attribute(function, "__builtins__")) {
            (Some(globals), Some(builtins)) => if crate::canonical::python_function(heap, function)
                && heap.dict(globals).is_some() && heap.dict(builtins).is_some() {
                Ok(GlobalResolver { globals, builtins })
            } else {
                Err(Failure::Kind)
            },
            _ => Err(Failure::Attribute),
        }
    }

    /// What a global name stands for: the module's binding, else the built-in.
    pub open spec fn resolved(self, heap: Heap, name: Seq<char>) -> Option<usize> {
        match heap.entry_of(self.globals, name) {
            Some(value) => Some(value),
            None => heap.entry_of(self.builtins, name),
        }
    }

    /// What a global name stands for.
    pub fn get(&self, heap: &Heap, name: &str) -> (value: Option<usize>)
        ensures
            value == self.resolved(*heap, name@),
    {
        match heap.entry(self.globals, name) {
            Some(value) => Some(value),
            None => heap.entry(self.builtins, name),
        }
    }

    /// Whether every name of a list stands for something.
    pub fn has_all(&self, heap: &Heap, names: &Vec<&'static str>) -> (all: bool)
        ensures
            all == (forall|index: int|
                0 <= index < names@.len() ==> self.resolved(
                    *heap,
                    (#[trigger] names@[index])@,
                ) is Some),
    {
        let mut index: usize = 0;
        while index < names.len()
            invariant
                index <= names.len(),
                forall|i: int|
                    0 <= i < index ==> self.resolved(*heap, (#[trigger] names@[i])@) is Some,
            decreases names.len() - index,
        {
            if self.get(heap, names[index]).is_none() {
                assert(self.resolved(*heap, names@[index as int]@) is None);
                return false;
            }
            index = index + 1;
        }
        true
    }
}

/// The message of a name that stands for nothing.
pub fn undefined_name_message(name: &str) -> (text: String)
    ensures
        text@ == "name '"@ + name@ + "' is not defined"@,
{
    let mut text = String::from_str("name '");
    text.append(name);
    text.append("' is not defined");
    text
}

/// The globals that the preparation of a body reads.
pub fn prepare_body_globals() -> (names: Vec<&'static str>)
    ensures
        names@.len() == 23,
        names@[0]@ == "AttributeError"@,
        names@[1]@ == "InvalidJSONError"@,
        names@[2]@ == "Iterable"@,
        names@[3]@ == "Mapping"@,
        names@[4]@ == "NotImplementedError"@,
        names@[5]@ == "OSError"@,
        names@[6]@ == "TypeError"@,
        names@[7]@ == "UnsupportedOperation"@,
        names@[8]@ == "ValueError"@,
        names@[9]@ == "_t"@,
        names@[10]@ == "basestring"@,
        names@[11]@ == "builtin_str"@,
        names@[12]@ == "bytes"@,
        names@[13]@ == "cast"@,
        names@[14]@ == "complexjson"@,
        names@[15]@ == "getattr"@,
        names@[16]@ == "hasattr"@,
        names@[17]@ == "isinstance"@,
        names@[18]@ == "list"@,
        names@[19]@ == "object"@,
        names@[20]@ == "str"@,
        names@[21]@ == "super_len"@,
        names@[22]@ == "tuple"@,
{
    vec![
        "AttributeError",
        "InvalidJSONError",
        "Iterable",
        "Mapping",
        "NotImplementedError",
        "OSError",
        "TypeError",
        "UnsupportedOperation",
        "ValueError",
        "_t",
        "basestring",
        "builtin_str",
        "bytes",
        "cast",
        "complexjson",
        "getattr",
        "hasattr",
        "isinstance",
        "list",
        "object",
        "str",
        "super_len",
        "tuple",
    ]
}

/// The globals that the preparation of a body's length reads.
pub fn content_length_globals() -> (names: Vec<&'static str>)
    ensures
        names@.len() == 2,
        names@[0]@ == "builtin_str"@,
        names@[1]@ == "super_len"@,
{
    vec!["builtin_str", "super_len"]
}

/// The globals that the rewinding of a body reads.
pub fn rewind_globals() -> (names: Vec<&'static str>)
    ensures
        names@.len() == 5,
        names@[0]@ == "OSError"@,
        names@[1]@ == "UnrewindableBodyError"@,
        names@[2]@ == "getattr"@,
        names@[3]@ == "integer_types"@,
        names@[4]@ == "isinstance"@,
{
    vec!["OSError", "UnrewindableBodyError", "getattr", "integer_types", "isinstance"]
}

/// A function of the body's preparation that is replaced by native code.
#[derive(Clone, Copy, Debug, PartialEq, Eq, Structural)]
pub enum BodyFunction {
    PrepareBody,
    PrepareContentLength,
    RewindBody,
}

impl BodyFunction {
    /// The object on a snapshot.
    pub open spec fn object_on(self, heap: Heap) -> Option<usize> {
        match self {
            BodyFunction::PrepareBody => entry_of_type(
                heap,
                "requests.models"@,
                "PreparedRequest"@,
                "prepare_body"@,
            ),
            BodyFunction::PrepareContentLength => entry_of_type(
                heap,
                "requests.models"@,
                "PreparedRequest"@,
                "prepare_content_length"@,
            ),
            BodyFunction::RewindBody => held_by(heap, "requests.utils"@, "rewind_body"@),
        }
    }

    pub open spec fn home(self) -> Seq<char> {
        match self {
            BodyFunction::RewindBody => "requests.utils"@,
            _ => "requests.models"@,
        }
    }

    pub open spec fn qualname(self) -> Seq<char> {
        match self {
            BodyFunction::PrepareBody => "PreparedRequest.prepare_body"@,
            BodyFunction::PrepareContentLength => "PreparedRequest.prepare_content_length"@,
            BodyFunction::RewindBody => "rewind_body"@,
        }
    }

    pub open spec fn policy(self) -> DefaultPolicy {
        match self {
            BodyFunction::PrepareBody => DefaultPolicy::SingleNone,
            _ => DefaultPolicy::Absent,
        }
    }
}

/// A function of the body's preparation as it was first met.
pub struct BodyTrust {
    pub object: usize,
    pub function: CanonicalFunction,
}

/// Remembers a function of the body's preparation.
pub fn initialize_body_trust(heap: &Heap, which: BodyFunction) -> (trust: Option<BodyTrust>)
    ensures
        trust is Some == (which.object_on(*heap) matches Some(current) && is_buildable(
            *heap,
            current,
            which.home(),
            which.qualname(),
            which.policy(),
            false,
            Seq::empty(),
        )),
        trust matches Some(trust) ==> which.object_on(*heap) == Some(trust.object) && is_built(
            *heap,
            trust.object,
            which.home(),
            which.qualname(),
            which.policy(),
            false,
            Seq::empty(),
            all_functions(),
            trust.function,
        ),
{
    let object = match which {
        BodyFunction::PrepareBody => required_raw_type_entry(
            heap,
            "requests.models",
            "PreparedRequest",
            "prepare_body",
        ),
        BodyFunction::PrepareContentLength => required_raw_type_entry(
            heap,
            "requests.models",
            "PreparedRequest",
            "prepare_content_length",
        ),
        BodyFunction::RewindBody => required_module_entry(heap, "requests.utils", "rewind_body"),
    };
    let object = match object {
        Some(object) => object,
        None => {
            return None;
        },
    };
    let ignored: Vec<String> = Vec::new();
    assert(text_views(ignored@) =~= Seq::<Seq<char>>::empty());
    let (module, qualname): (&'static str, &'static str) = match which {
        BodyFunction::PrepareBody => ("requests.models", "PreparedRequest.prepare_body"),
        BodyFunction::PrepareContentLength => (
            "requests.models",
            "PreparedRequest.prepare_content_length",
        ),
        BodyFunction::RewindBody => ("requests.utils", "rewind_body"),
    };
    let policy = match which {
        BodyFunction::PrepareBody => DefaultPolicy::SingleNone,
        _ => DefaultPolicy::Absent,
    };
    match build_canonical_function(
        heap,
        object,
        Source { module, qualname, policy, include_globals: false, ignored: &ignored },
    ) {
        Some(function) => Some(BodyTrust { object, function }),
        None => None,
    }
}

/// Whether a callable is a prepared request's own method of the body's
/// preparation.
pub fn trusted_prepared_body_method(
    heap: &Heap,
    state: &ModelsState,
    subject: usize,
    name: &str,
    callable: usize,
    trust: &BodyTrust,
) -> (check: Check)
    requires
        state.well_formed(),
    ensures
        check == is_trusted_method(
            *heap,
            *state,
            subject,
            name@,
            callable,
            trust.object,
            trust.function,
        ),
{
    trusted_bound_method_with_callable(
        heap,
        state,
        subject,
        name,
        callable,
        trust.object,
        &trust.function,
    )
}

/// Whether `requests.utils.rewind_body` is still the trusted function.
pub open spec fn rewind_is_trusted(
    heap: Heap,
    state: ModelsState,
    callable: usize,
    trust: BodyTrust,
) -> Check {
    both(
        Ok(
            entry_is(heap, state.remembered(Anchor::Utils), "rewind_body"@, trust.object)
                && callable == trust.object,
        ),
        is_canonical(heap, callable, trust.function),
    )
}

/// Whether `requests.utils.rewind_body` is still the trusted function.
pub fn trusted_rewind_body(heap: &Heap, state: &ModelsState, callable: usize, trust: &BodyTrust) -> (
    check: Check)
    requires
        state.well_formed(),
    ensures
        check == rewind_is_trusted(*heap, *state, callable, *trust),
{
    if !raw_module_entry_is(heap, state.anchor(Anchor::Utils), "rewind_body", trust.object)
        || callable != trust.object {
        return Ok(false);
    }
    canonical_function_is(heap, callable, &trust.function)
}

/// What becomes a request's body.
#[derive(Clone, Copy, Debug, PartialEq, Eq, Structural)]
pub enum BodyValue {
    Nothing,
    /// What the JSON encoder gave.
    Serialized,
    /// That, encoded as UTF-8.
    EncodedJson,
    /// The data itself.
    Data,
    /// The encoded files.
    Files,
    /// The encoded parameters.
    Params,
}

/// The content type of a body.
#[derive(Clone, Copy, Debug, PartialEq, Eq, Structural)]
pub enum ContentType {
    Absent,
    /// `application/json`
    Json,
    /// The one that encoding the files gave.
    Files,
    /// `application/x-www-form-urlencoded`
    Form,
}

/// What Python does next.
#[derive(Clone, Copy, Debug, PartialEq, Eq, Structural)]
pub enum BodyCall {
    /// Is the data true?
    TestData,
    /// `complexjson.dumps(json, allow_nan=False)`
    SerializeJson,
    /// Is the error a `ValueError`?
    MatchValueError,
    /// Is the serialised JSON a byte string?
    TestSerializedBytes,
    /// Encode the serialised JSON as UTF-8.
    EncodeSerialized,
    /// Is the data an `Iterable`?
    TestIterable,
    /// Does the data have `__iter__`?
    TestHasIter,
    /// Is the data a text, byte string, list, tuple or mapping?
    TestExcluded,
    /// `super_len(data)`
    MeasureStream,
    /// Is the error one that an unknown length raises?
    MatchLengthError,
    /// Does the body have `tell`?
    FetchTell,
    /// Call `tell`.
    CallTell,
    /// Remember the position.
    SetPosition,
    /// Is the error an `OSError`?
    MatchTellError,
    /// Remember that the position is unknown.
    SetUnknownPosition,
    /// Are the files true?
    TestFiles,
    /// Is the length true?
    TestLength,
    /// Set `Content-Length` to the length.
    SetContentLength,
    /// Set `Transfer-Encoding` to `chunked`.
    SetChunked,
    /// Cast the data.
    CastData,
    /// Encode the files with the data.
    EncodeFiles,
    /// Is the cast data true?
    TestRawData,
    /// Encode the parameters.
    EncodeParams,
    /// Is the data a text or byte string?
    TestText,
    /// Does the data have `read`?
    TestHasRead,
    /// Prepare the length.
    PrepareContentLength,
    /// Is the content type true?
    TestContentType,
    /// Do the headers hold a content type?
    TestHeader,
    /// Set `Content-Type`.
    SetContentType,
    /// Set the body.
    SetBody,
    /// Nothing: the body is prepared.
    Finished,
    /// Raise `InvalidJSONError` from the error.
    RaiseInvalidJson,
    /// Raise `NotImplementedError`: a stream and files exclude each other.
    RaiseExclusive,
    /// The error goes on.
    RaiseCurrent,
}

/// What a call gave.
#[derive(Clone, Copy, Debug, PartialEq, Eq, Structural)]
pub enum Answer {
    Yes,
    No,
    /// It is done, or gave a value that Python keeps.
    Done,
    /// It raised an error.
    Raised,
}

/// What the preparation remembers between calls.
#[derive(Clone, Copy, Debug, PartialEq, Eq, Structural)]
pub struct BodyMemory {
    pub json_given: bool,
    pub streaming: bool,
    pub length_known: bool,
    pub body: BodyValue,
    pub content_type: ContentType,
}

/// The call after the length is prepared.
pub open spec fn after_length(memory: BodyMemory) -> BodyCall {
    if memory.content_type is Absent {
        BodyCall::SetBody
    } else {
        BodyCall::TestContentType
    }
}

/// What is remembered, and done next, after a call was answered.
pub open spec fn next_call(memory: BodyMemory, call: BodyCall, answer: Answer) -> (
    BodyMemory,
    BodyCall,
) {
    match (call, answer) {
        (BodyCall::TestData, Answer::Yes) => (memory, BodyCall::TestIterable),
        (BodyCall::TestData, Answer::No) => if memory.json_given {
            (BodyMemory { content_type: ContentType::Json, ..memory }, BodyCall::SerializeJson)
        } else {
            (memory, BodyCall::TestIterable)
        },
        (BodyCall::SerializeJson, Answer::Done) => (memory, BodyCall::TestSerializedBytes),
        (BodyCall::SerializeJson, Answer::Raised) => (memory, BodyCall::MatchValueError),
        (BodyCall::MatchValueError, Answer::Yes) => (memory, BodyCall::RaiseInvalidJson),
        (BodyCall::TestSerializedBytes, Answer::Yes) => (
            BodyMemory { body: BodyValue::Serialized, ..memory },
            BodyCall::TestIterable,
        ),
        (BodyCall::TestSerializedBytes, Answer::No) => (memory, BodyCall::EncodeSerialized),
        (BodyCall::EncodeSerialized, Answer::Done) => (
            BodyMemory { body: BodyValue::EncodedJson, ..memory },
            BodyCall::TestIterable,
        ),
        (BodyCall::TestIterable, Answer::Yes) => (memory, BodyCall::TestExcluded),
        (BodyCall::TestIterable, Answer::No) => (memory, BodyCall::TestHasIter),
        (BodyCall::TestHasIter, Answer::Yes) => (memory, BodyCall::TestExcluded),
        (BodyCall::TestHasIter, Answer::No) => (memory, BodyCall::CastData),
        (BodyCall::TestExcluded, Answer::Yes) => (memory, BodyCall::CastData),
        (BodyCall::TestExcluded, Answer::No) => (memory, BodyCall::MeasureStream),
        (BodyCall::MeasureStream, Answer::Done) => (
            BodyMemory { streaming: true, length_known: true, body: BodyValue::Data, ..memory },
            BodyCall::FetchTell,
        ),
        (BodyCall::MeasureStream, Answer::Raised) => (memory, BodyCall::MatchLengthError),
        (BodyCall::MatchLengthError, Answer::Yes) => (
            BodyMemory { streaming: true, length_known: false, body: BodyValue::Data, ..memory },
            BodyCall::FetchTell,
        ),
        (BodyCall::FetchTell, Answer::Yes) => (memory, BodyCall::CallTell),
        (BodyCall::FetchTell, Answer::No) => (memory, BodyCall::TestFiles),
        (BodyCall::CallTell, Answer::Done) => (memory, BodyCall::SetPosition),
        (BodyCall::CallTell, Answer::Raised) => (memory, BodyCall::MatchTellError),
        (BodyCall::SetPosition, Answer::Done) => (memory, BodyCall::TestFiles),
        (BodyCall::MatchTellError, Answer::Yes) => (memory, BodyCall::SetUnknownPosition),
        (BodyCall::SetUnknownPosition, Answer::Done) => (memory, BodyCall::TestFiles),
        (BodyCall::TestFiles, Answer::Yes) => if memory.streaming {
            (memory, BodyCall::RaiseExclusive)
        } else {
            (memory, BodyCall::EncodeFiles)
        },
        (BodyCall::TestFiles, Answer::No) => if !memory.streaming {
            (memory, BodyCall::TestRawData)
        } else if memory.length_known {
            (memory, BodyCall::TestLength)
        } else {
            (memory, BodyCall::SetChunked)
        },
        (BodyCall::TestLength, Answer::Yes) => (memory, BodyCall::SetContentLength),
        (BodyCall::TestLength, Answer::No) => (memory, BodyCall::SetChunked),
        (BodyCall::SetContentLength, Answer::Done) => (memory, BodyCall::SetBody),
        (BodyCall::SetChunked, Answer::Done) => (memory, BodyCall::SetBody),
        (BodyCall::CastData, Answer::Done) => (memory, BodyCall::TestFiles),
        (BodyCall::EncodeFiles, Answer::Done) => (
            BodyMemory { body: BodyValue::Files, content_type: ContentType::Files, ..memory },
            BodyCall::PrepareContentLength,
        ),
        (BodyCall::TestRawData, Answer::Yes) => (memory, BodyCall::EncodeParams),
        (BodyCall::TestRawData, Answer::No) => (memory, BodyCall::PrepareContentLength),
        (BodyCall::EncodeParams, Answer::Done) => (
            BodyMemory { body: BodyValue::Params, ..memory },
            BodyCall::TestText,
        ),
        (BodyCall::TestText, Answer::Yes) => (memory, BodyCall::PrepareContentLength),
        (BodyCall::TestText, Answer::No) => (memory, BodyCall::TestHasRead),
        (BodyCall::TestHasRead, Answer::Yes) => (memory, BodyCall::PrepareContentLength),
        (BodyCall::TestHasRead, Answer::No) => (
            BodyMemory { content_type: ContentType::Form, ..memory },
            BodyCall::PrepareContentLength,
        ),
        (BodyCall::PrepareContentLength, Answer::Done) => (memory, after_length(memory)),
        (BodyCall::TestContentType, Answer::Yes) => (memory, BodyCall::TestHeader),
        (BodyCall::TestContentType, Answer::No) => (memory, BodyCall::SetBody),
        (BodyCall::TestHeader, Answer::Yes) => (memory, BodyCall::SetBody),
        (BodyCall::TestHeader, Answer::No) => (memory, BodyCall::SetContentType),
        (BodyCall::SetContentType, Answer::Done) => (memory, BodyCall::SetBody),
        (BodyCall::SetBody, Answer::Done) => (memory, BodyCall::Finished),
        _ => (memory, BodyCall::RaiseCurrent),
    }
}

/// Where the preparation of a body stands.
#[derive(Clone, Copy, Debug, PartialEq, Eq, Structural)]
pub struct BodyPreparation {
    pub memory: BodyMemory,
    /// What Python does next.
    pub call: BodyCall,
}

impl BodyPreparation {
    /// A preparation that begins.
    pub open spec fn beginning(json_given: bool) -> Self {
        BodyPreparation {
            memory: BodyMemory {
                json_given,
                streaming: false,
                length_known: false,
                body: BodyValue::Nothing,
                content_type: ContentType::Absent,
            },
            call: BodyCall::TestData,
        }
    }

    /// Begins the preparation of a body. `json_given` tells whether JSON was
    /// given, even a false value.
    pub fn new(json_given: bool) -> (preparation: Self)
        ensures
            preparation == Self::beginning(json_given),
    {
        BodyPreparation {
            memory: BodyMemory {
                json_given,
                streaming: false,
                length_known: false,
                body: BodyValue::Nothing,
                content_type: ContentType::Absent,
            },
            call: BodyCall::TestData,
        }
    }

    /// Goes on after the call was answered.
    pub fn prepare_body(&mut self, answer: Answer)
        ensures
            (final(self).memory, final(self).call) == next_call(
                old(self).memory,
                old(self).call,
                answer,
            ),
    {
        let call = match (self.call, answer) {
            (BodyCall::TestData, Answer::Yes) => BodyCall::TestIterable,
            (BodyCall::TestData, Answer::No) => if self.memory.json_given {
                self.memory.content_type = ContentType::Json;
                BodyCall::SerializeJson
            } else {
                BodyCall::TestIterable
            },
            (BodyCall::SerializeJson, Answer::Done) => BodyCall::TestSerializedBytes,
            (BodyCall::SerializeJson, Answer::Raised) => BodyCall::MatchValueError,
            (BodyCall::MatchValueError, Answer::Yes) => BodyCall::RaiseInvalidJson,
            (BodyCall::TestSerializedBytes, Answer::Yes) => {
                self.memory.body = BodyValue::Serialized;
                BodyCall::TestIterable
            },
            (BodyCall::TestSerializedBytes, Answer::No) => BodyCall::EncodeSerialized,
            (BodyCall::EncodeSerialized, Answer::Done) => {
                self.memory.body = BodyValue::EncodedJson;
                BodyCall::TestIterable
            },
            (BodyCall::TestIterable, Answer::Yes) => BodyCall::TestExcluded,
            (BodyCall::TestIterable, Answer::No) => BodyCall::TestHasIter,
            (BodyCall::TestHasIter, Answer::Yes) => BodyCall::TestExcluded,
            (BodyCall::TestHasIter, Answer::No) => BodyCall::CastData,
            (BodyCall::TestExcluded, Answer::Yes) => BodyCall::CastData,
            (BodyCall::TestExcluded, Answer::No) => BodyCall::MeasureStream,
            (BodyCall::MeasureStream, Answer::Done) => {
                self.memory.streaming = true;
                self.memory.length_known = true;
                self.memory.body = BodyValue::Data;
                BodyCall::FetchTell
            },
            (BodyCall::MeasureStream, Answer::Raised) => BodyCall::MatchLengthError,
            (BodyCall::MatchLengthError, Answer::Yes) => {
                self.memory.streaming = true;
                self.memory.length_known = false;
                self.memory.body = BodyValue::Data;
                BodyCall::FetchTell
            },
            (BodyCall::FetchTell, Answer::Yes) => BodyCall::CallTell,
            (BodyCall::FetchTell, Answer::No) => BodyCall::TestFiles,
            (BodyCall::CallTell, Answer::Done) => BodyCall::SetPosition,
            (BodyCall::CallTell, Answer::Raised) => BodyCall::MatchTellError,
            (BodyCall::SetPosition, Answer::Done) => BodyCall::TestFiles,
            (BodyCall::MatchTellError, Answer::Yes) => BodyCall::SetUnknownPosition,
            (BodyCall::SetUnknownPosition, Answer::Done) => BodyCall::TestFiles,
            (BodyCall::TestFiles, Answer::Yes) => if self.memory.streaming {
                BodyCall::RaiseExclusive
            } else {
                BodyCall::EncodeFiles
            },
            (BodyCall::TestFiles, Answer::No) => if !self.memory.streaming {
                BodyCall::TestRawData
            } else if self.memory.length_known {
                BodyCall::TestLength
            } else {
                BodyCall::SetChunked
            },
            (BodyCall::TestLength, Answer::Yes) => BodyCall::SetContentLength,
            (BodyCall::TestLength, Answer::No) => BodyCall::SetChunked,
            (BodyCall::SetContentLength, Answer::Done) => BodyCall::SetBody,
            (BodyCall::SetChunked, Answer::Done) => BodyCall::SetBody,
            (BodyCall::CastData, Answer::Done) => BodyCall::TestFiles,
            (BodyCall::EncodeFiles, Answer::Done) => {
                self.memory.body = BodyValue::Files;
                self.memory.content_type = ContentType::Files;
                BodyCall::PrepareContentLength
            },
            (BodyCall::TestRawData, Answer::Yes) => BodyCall::EncodeParams,
            (BodyCall::TestRawData, Answer::No) => BodyCall::PrepareContentLength,
            (BodyCall::EncodeParams, Answer::Done) => {
                self.memory.body = BodyValue::Params;
                BodyCall::TestText
            },
            (BodyCall::TestText, Answer::Yes) => BodyCall::PrepareContentLength,
            (BodyCall::TestText, Answer::No) => BodyCall::TestHasRead,
            (BodyCall::TestHasRead, Answer::Yes) => BodyCall::PrepareContentLength,
            (BodyCall::TestHasRead, Answer::No) => {
                self.memory.content_type = ContentType::Form;
                BodyCall::PrepareContentLength
            },
            (BodyCall::PrepareContentLength, Answer::Done) => match self.memory.content_type {
                ContentType::Absent => BodyCall::SetBody,
                _ => BodyCall::TestContentType,
            },
            (BodyCall::TestContentType, Answer::Yes) => BodyCall::TestHeader,
            (BodyCall::TestContentType, Answer::No) => BodyCall::SetBody,
            (BodyCall::TestHeader, Answer::Yes) => BodyCall::SetBody,
            (BodyCall::TestHeader, Answer::No) => BodyCall::SetContentType,
            (BodyCall::SetContentType, Answer::Done) => BodyCall::SetBody,
            (BodyCall::SetBody, Answer::Done) => BodyCall::Finished,
            _ => BodyCall::RaiseCurrent,
        };
        self.call = call;
    }
}

/// The length of a streamed body.
#[derive(Clone, Copy, Debug, PartialEq, Eq, Structural)]
pub enum StreamLength {
    /// A length that counts as true.
    Positive,
    /// Zero.
    Zero,
    /// Unknown: measuring raised one of the errors that say so.
    Unknown,
    /// Measuring raised another error.
    Broken,
}

/// What `tell` of a streamed body does.
#[derive(Clone, Copy, Debug, PartialEq, Eq, Structural)]
pub enum Tell {
    Absent,
    Position,
    OsError,
    OtherError,
}

/// What Python would answer about a request's data, files and JSON.
#[derive(Clone, Copy, Debug, PartialEq, Eq, Structural)]
pub struct BodyFacts {
    pub data: bool,
    pub json_given: bool,
    pub json_serializes: bool,
    pub json_error_is_value_error: bool,
    pub serialized_is_bytes: bool,
    pub iterable: bool,
    pub has_iter: bool,
    pub excluded: bool,
    pub length: StreamLength,
    pub tell: Tell,
    pub files: bool,
    pub raw_data: bool,
    pub text: bool,
    pub has_read: bool,
    pub content_type_is_true: bool,
    pub header_present: bool,
}

/// What a preparation comes to.
#[derive(Clone, Copy, Debug, PartialEq, Eq, Structural)]
pub enum BodyOutcome {
    InvalidJson,
    Exclusive,
    Error,
    /// The body is set; a stream is framed by its length or in chunks, any
    /// other body by the preparation of its length; and the content type is
    /// set or not.
    Prepared { body: BodyValue, framing: Framing, content_type: ContentType },
}

/// How the end of a body is told.
#[derive(Clone, Copy, Debug, PartialEq, Eq, Structural)]
pub enum Framing {
    ContentLength,
    Chunked,
    /// By the preparation of its length.
    Prepared,
}

/// A yes or a no.
pub open spec fn told(yes: bool) -> Answer {
    if yes {
        Answer::Yes
    } else {
        Answer::No
    }
}

/// What Python answers a call.
pub open spec fn answered(facts: BodyFacts, call: BodyCall) -> Answer {
    match call {
        BodyCall::TestData => told(facts.data),
        BodyCall::SerializeJson => if facts.json_serializes {
            Answer::Done
        } else {
            Answer::Raised
        },
        BodyCall::MatchValueError => told(facts.json_error_is_value_error),
        BodyCall::TestSerializedBytes => told(facts.serialized_is_bytes),
        BodyCall::TestIterable => told(facts.iterable),
        BodyCall::TestHasIter => told(facts.has_iter),
        BodyCall::TestExcluded => told(facts.excluded),
        BodyCall::MeasureStream => if facts.length is Positive || facts.length is Zero {
            Answer::Done
        } else {
            Answer::Raised
        },
        BodyCall::MatchLengthError => told(facts.length is Unknown),
        BodyCall::FetchTell => told(!(facts.tell is Absent)),
        BodyCall::CallTell => if facts.tell is Position {
            Answer::Done
        } else {
            Answer::Raised
        },
        BodyCall::MatchTellError => told(facts.tell is OsError),
        BodyCall::TestFiles => told(facts.files),
        BodyCall::TestLength => told(facts.length is Positive),
        BodyCall::TestRawData => told(facts.raw_data),
        BodyCall::TestText => told(facts.text),
        BodyCall::TestHasRead => told(facts.has_read),
        BodyCall::TestContentType => told(facts.content_type_is_true),
        BodyCall::TestHeader => told(facts.header_present),
        _ => Answer::Done,
    }
}

/// What the calls from `call` on come to, where Python answers by the facts
/// and at most `limit` calls are made. `framing` and `typed` are what was set
/// so far.
pub open spec fn carried_out(
    facts: BodyFacts,
    memory: BodyMemory,
    call: BodyCall,
    framing: Framing,
    typed: ContentType,
    limit: nat,
) -> BodyOutcome
    decreases limit,
{
    match call {
        BodyCall::Finished => BodyOutcome::Prepared {
            body: memory.body,
            framing,
            content_type: typed,
        },
        BodyCall::RaiseInvalidJson => BodyOutcome::InvalidJson,
        BodyCall::RaiseExclusive => BodyOutcome::Exclusive,
        BodyCall::RaiseCurrent => BodyOutcome::Error,
        _ => if limit == 0 {
            BodyOutcome::Error
        } else {
            let (next_memory, next) = next_call(memory, call, answered(facts, call));
            carried_out(
                facts,
                next_memory,
                next,
                framed(framing, call),
                typed_by(typed, memory, call),
                (limit - 1) as nat,
            )
        },
    }
}

/// How a body's end is told after a call.
pub open spec fn framed(framing: Framing, call: BodyCall) -> Framing {
    match call {
        BodyCall::SetContentLength => Framing::ContentLength,
        BodyCall::SetChunked => Framing::Chunked,
        _ => framing,
    }
}

/// The content type that is set after a call.
pub open spec fn typed_by(typed: ContentType, memory: BodyMemory, call: BodyCall) -> ContentType {
    if call is SetContentType {
        memory.content_type
    } else {
        typed
    }
}

/// Whether the body is the JSON.
pub open spec fn json_is_used(facts: BodyFacts) -> bool {
    !facts.data && facts.json_given
}

/// Whether the body is streamed: it can be iterated over and is no text, byte
/// string, list, tuple or mapping.
pub open spec fn is_streamed(facts: BodyFacts) -> bool {
    (facts.iterable || facts.has_iter) && !facts.excluded
}

/// The content type that a body comes with.
pub open spec fn own_content_type(facts: BodyFacts) -> ContentType {
    if facts.files {
        ContentType::Files
    } else if facts.raw_data && !facts.text && !facts.has_read {
        ContentType::Form
    } else if json_is_used(facts) {
        ContentType::Json
    } else {
        ContentType::Absent
    }
}

/// What a preparation comes to, told from the facts.
pub open spec fn expected_outcome(facts: BodyFacts) -> BodyOutcome {
    if json_is_used(facts) && !facts.json_serializes {
        if facts.json_error_is_value_error {
            BodyOutcome::InvalidJson
        } else {
            BodyOutcome::Error
        }
    } else if is_streamed(facts) {
        if facts.length is Broken || facts.tell is OtherError {
            BodyOutcome::Error
        } else if facts.files {
            BodyOutcome::Exclusive
        } else {
            BodyOutcome::Prepared {
                body: BodyValue::Data,
                framing: if facts.length is Positive {
                    Framing::ContentLength
                } else {
                    Framing::Chunked
                },
                content_type: ContentType::Absent,
            }
        }
    } else {
        BodyOutcome::Prepared {
            body: if facts.files {
                BodyValue::Files
            } else if facts.raw_data {
                BodyValue::Params
            } else if !json_is_used(facts) {
                BodyValue::Nothing
            } else if facts.serialized_is_bytes {
                BodyValue::Serialized
            } else {
                BodyValue::EncodedJson
            },
            framing: Framing::Prepared,
            content_type: if facts.content_type_is_true && !facts.header_present {
                own_content_type(facts)
            } else {
                ContentType::Absent
            },
        }
    }
}

/// What a streamed body comes to once its position is known.
pub open spec fn stream_outcome(facts: BodyFacts, length_known: bool) -> BodyOutcome {
    if facts.files {
        BodyOutcome::Exclusive
    } else {
        BodyOutcome::Prepared {
            body: BodyValue::Data,
            framing: if length_known && facts.length is Positive {
                Framing::ContentLength
            } else {
                Framing::Chunked
            },
            content_type: ContentType::Absent,
        }
    }
}

/// What the calls from the preparation of the length on come to.
proof fn lemma_length_to_end(facts: BodyFacts, memory: BodyMemory, limit: nat)
    requires
        limit >= 6,
    ensures
        carried_out(
            facts,
            memory,
            BodyCall::PrepareContentLength,
            Framing::Prepared,
            ContentType::Absent,
            limit,
        ) == (BodyOutcome::Prepared {
            body: memory.body,
            framing: Framing::Prepared,
            content_type: if facts.content_type_is_true && !facts.header_present {
                memory.content_type
            } else {
                ContentType::Absent
            },
        }),
{
    reveal_with_fuel(carried_out, 7);
}

/// What the preparation of a body that is not streamed comes to.
pub open spec fn plain_outcome(facts: BodyFacts, memory: BodyMemory) -> BodyOutcome {
    BodyOutcome::Prepared {
        body: if facts.files {
            BodyValue::Files
        } else if facts.raw_data {
            BodyValue::Params
        } else {
            memory.body
        },
        framing: Framing::Prepared,
        content_type: if facts.content_type_is_true && !facts.header_present {
            if facts.files {
                ContentType::Files
            } else if facts.raw_data && !facts.text && !facts.has_read {
                ContentType::Form
            } else {
                memory.content_type
            }
        } else {
            ContentType::Absent
        },
    }
}

/// What the calls on a body with files come to.
#[verifier::spinoff_prover]
proof fn lemma_files_to_end(facts: BodyFacts, memory: BodyMemory, limit: nat)
    requires
        !memory.streaming,
        facts.files,
        limit >= 12,
    ensures
        carried_out(
            facts,
            memory,
            BodyCall::CastData,
            Framing::Prepared,
            ContentType::Absent,
            limit,
        ) == plain_outcome(facts, memory),
{
    let with_files = BodyMemory {
        body: BodyValue::Files,
        content_type: ContentType::Files,
        ..memory
    };
    lemma_length_to_end(facts, with_files, (limit - 3) as nat);
    reveal_with_fuel(carried_out, 4);
}

/// What the calls on a body without files and data come to.
#[verifier::spinoff_prover]
proof fn lemma_no_data_to_end(facts: BodyFacts, memory: BodyMemory, limit: nat)
    requires
        !memory.streaming,
        !facts.files,
        !facts.raw_data,
        limit >= 12,
    ensures
        carried_out(
            facts,
            memory,
            BodyCall::CastData,
            Framing::Prepared,
            ContentType::Absent,
            limit,
        ) == plain_outcome(facts, memory),
{
    lemma_length_to_end(facts, memory, (limit - 3) as nat);
    reveal_with_fuel(carried_out, 4);
}

/// What the calls on a body of data come to, from the encoding on.
#[verifier::spinoff_prover]
proof fn lemma_params_to_end(facts: BodyFacts, memory: BodyMemory, limit: nat)
    requires
        !memory.streaming,
        !facts.files,
        facts.raw_data,
        limit >= 9,
    ensures
        carried_out(
            facts,
            memory,
            BodyCall::EncodeParams,
            Framing::Prepared,
            ContentType::Absent,
            limit,
        ) == plain_outcome(facts, memory),
{
    let with_params = BodyMemory { body: BodyValue::Params, ..memory };
    let with_form = BodyMemory { content_type: ContentType::Form, ..with_params };
    if facts.text {
        lemma_length_to_end(facts, with_params, (limit - 2) as nat);
        reveal_with_fuel(carried_out, 3);
    } else {
        lemma_length_to_end(facts, with_params, (limit - 3) as nat);
        lemma_length_to_end(facts, with_form, (limit - 3) as nat);
        reveal_with_fuel(carried_out, 4);
    }
}

/// What the calls on a body that is not streamed come to.
#[verifier::spinoff_prover]
proof fn lemma_plain_to_end(facts: BodyFacts, memory: BodyMemory, limit: nat)
    requires
        !memory.streaming,
        limit >= 12,
    ensures
        carried_out(
            facts,
            memory,
            BodyCall::CastData,
            Framing::Prepared,
            ContentType::Absent,
            limit,
        ) == plain_outcome(facts, memory),
{
    if facts.files {
        lemma_files_to_end(facts, memory, limit);
    } else if !facts.raw_data {
        lemma_no_data_to_end(facts, memory, limit);
    } else {
        lemma_params_to_end(facts, memory, (limit - 3) as nat);
        reveal_with_fuel(carried_out, 4);
    }
}

/// What the calls on a streamed body from the test on the files on come to.
proof fn lemma_framing_to_end(facts: BodyFacts, memory: BodyMemory, limit: nat)
    requires
        memory.streaming,
        memory.body is Data,
        limit >= 4,
    ensures
        carried_out(
            facts,
            memory,
            BodyCall::TestFiles,
            Framing::Prepared,
            ContentType::Absent,
            limit,
        ) == stream_outcome(facts, memory.length_known),
{
    reveal_with_fuel(carried_out, 5);
}

/// What the calls on a streamed body from the question for its position on come
/// to.
proof fn lemma_position_to_end(facts: BodyFacts, memory: BodyMemory, limit: nat)
    requires
        memory.streaming,
        memory.body is Data,
        limit >= 8,
    ensures
        carried_out(
            facts,
            memory,
            BodyCall::FetchTell,
            Framing::Prepared,
            ContentType::Absent,
            limit,
        ) == (if facts.tell is OtherError {
            BodyOutcome::Error
        } else {
            stream_outcome(facts, memory.length_known)
        }),
{
    lemma_framing_to_end(facts, memory, (limit - 1) as nat);
    lemma_framing_to_end(facts, memory, (limit - 3) as nat);
    lemma_framing_to_end(facts, memory, (limit - 4) as nat);
    match facts.tell {
        Tell::Absent => {
            reveal_with_fuel(carried_out, 2);
        },
        Tell::Position => {
            reveal_with_fuel(carried_out, 4);
        },
        Tell::OsError => {
            reveal_with_fuel(carried_out, 5);
        },
        Tell::OtherError => {
            reveal_with_fuel(carried_out, 4);
        },
    }
}

/// What the calls on a streamed body come to.
proof fn lemma_stream_to_end(facts: BodyFacts, memory: BodyMemory, limit: nat)
    requires
        limit >= 10,
    ensures
        carried_out(
            facts,
            memory,
            BodyCall::MeasureStream,
            Framing::Prepared,
            ContentType::Absent,
            limit,
        ) == (if facts.length is Broken || facts.tell is OtherError {
            BodyOutcome::Error
        } else {
            stream_outcome(facts, facts.length is Positive || facts.length is Zero)
        }),
{
    let known = BodyMemory {
        streaming: true,
        length_known: true,
        body: BodyValue::Data,
        ..memory
    };
    let unknown = BodyMemory { length_known: false, ..known };
    lemma_position_to_end(facts, known, (limit - 1) as nat);
    lemma_position_to_end(facts, unknown, (limit - 2) as nat);
    reveal_with_fuel(carried_out, 3);
}

/// What the calls from the test on the data's kind on come to.
proof fn lemma_data_to_end(facts: BodyFacts, memory: BodyMemory, limit: nat)
    requires
        !memory.streaming,
        limit >= 15,
    ensures
        carried_out(
            facts,
            memory,
            BodyCall::TestIterable,
            Framing::Prepared,
            ContentType::Absent,
            limit,
        ) == (if is_streamed(facts) {
            carried_out(
                facts,
                memory,
                BodyCall::MeasureStream,
                Framing::Prepared,
                ContentType::Absent,
                10,
            )
        } else {
            carried_out(
                facts,
                memory,
                BodyCall::CastData,
                Framing::Prepared,
                ContentType::Absent,
                12,
            )
        }),
{
    lemma_stream_to_end(facts, memory, 10);
    lemma_stream_to_end(facts, memory, (limit - 2) as nat);
    lemma_stream_to_end(facts, memory, (limit - 3) as nat);
    lemma_plain_to_end(facts, memory, 12);
    lemma_plain_to_end(facts, memory, (limit - 2) as nat);
    lemma_plain_to_end(facts, memory, (limit - 3) as nat);
    reveal_with_fuel(carried_out, 4);
}

/// A preparation comes to what the facts tell: the JSON is used only where
/// there is no data, a stream is framed by its length or in chunks and takes no
/// files, and a content type is set only where the headers hold none. It takes
/// at most twenty calls.
pub proof fn law_preparation_follows_the_facts(facts: BodyFacts, limit: nat)
    requires
        limit >= 20,
    ensures
        carried_out(
            facts,
            BodyPreparation::beginning(facts.json_given).memory,
            BodyPreparation::beginning(facts.json_given).call,
            Framing::Prepared,
            ContentType::Absent,
            limit,
        ) == expected_outcome(facts),
{
    let memory = BodyPreparation::beginning(facts.json_given).memory;
    let json = BodyMemory { content_type: ContentType::Json, ..memory };
    let serialized = BodyMemory { body: BodyValue::Serialized, ..json };
    let encoded = BodyMemory { body: BodyValue::EncodedJson, ..json };
    if !json_is_used(facts) {
        lemma_data_to_end(facts, memory, (limit - 1) as nat);
        lemma_plain_to_end(facts, memory, 12);
        lemma_stream_to_end(facts, memory, 10);
        reveal_with_fuel(carried_out, 2);
    } else if facts.json_serializes && facts.serialized_is_bytes {
        lemma_data_to_end(facts, serialized, (limit - 3) as nat);
        lemma_plain_to_end(facts, serialized, 12);
        lemma_stream_to_end(facts, serialized, 10);
        reveal_with_fuel(carried_out, 4);
    } else if facts.json_serializes {
        lemma_data_to_end(facts, encoded, (limit - 4) as nat);
        lemma_plain_to_end(facts, encoded, 12);
        lemma_stream_to_end(facts, encoded, 10);
        reveal_with_fuel(carried_out, 5);
    } else {
        reveal_with_fuel(carried_out, 4);
    }
}

/// What Python does next about a body's length.
#[derive(Clone, Copy, Debug, PartialEq, Eq, Structural)]
pub enum LengthCall {
    /// `super_len(body)`, and is it true?
    MeasureBody,
    /// Set `Content-Length` to that length.
    SetMeasured,
    /// Is the method `GET` or `HEAD`?
    TestMethod,
    /// Do the headers lack `Content-Length`?
    TestMissing,
    /// Set `Content-Length` to zero.
    SetZero,
    Finished,
    RaiseCurrent,
}

/// The first call about a body's length.
pub open spec fn first_length_call(body_is_none: bool) -> LengthCall {
    if body_is_none {
        LengthCall::TestMethod
    } else {
        LengthCall::MeasureBody
    }
}

/// The first call about a body's length.
pub fn prepare_content_length(body_is_none: bool) -> (call: LengthCall)
    ensures
        call == first_length_call(body_is_none),
{
    if body_is_none {
        LengthCall::TestMethod
    } else {
        LengthCall::MeasureBody
    }
}

/// The call after another one about a body's length was answered.
pub open spec fn next_length_call(call: LengthCall, answer: Answer) -> LengthCall {
    match (call, answer) {
        (LengthCall::MeasureBody, Answer::Yes) => LengthCall::SetMeasured,
        (LengthCall::MeasureBody, Answer::No) => LengthCall::Finished,
        (LengthCall::SetMeasured, Answer::Done) => LengthCall::Finished,
        (LengthCall::TestMethod, Answer::Yes) => LengthCall::Finished,
        (LengthCall::TestMethod, Answer::No) => LengthCall::TestMissing,
        (LengthCall::TestMissing, Answer::Yes) => LengthCall::SetZero,
        (LengthCall::TestMissing, Answer::No) => LengthCall::Finished,
        (LengthCall::SetZero, Answer::Done) => LengthCall::Finished,
        _ => LengthCall::RaiseCurrent,
    }
}

/// Goes on with the preparation of a body's length.
pub fn continue_content_length(call: LengthCall, answer: Answer) -> (next: LengthCall)
    ensures
        next == next_length_call(call, answer),
{
    match (call, answer) {
        (LengthCall::MeasureBody, Answer::Yes) => LengthCall::SetMeasured,
        (LengthCall::MeasureBody, Answer::No) => LengthCall::Finished,
        (LengthCall::SetMeasured, Answer::Done) => LengthCall::Finished,
        (LengthCall::TestMethod, Answer::Yes) => LengthCall::Finished,
        (LengthCall::TestMethod, Answer::No) => LengthCall::TestMissing,
        (LengthCall::TestMissing, Answer::Yes) => LengthCall::SetZero,
        (LengthCall::TestMissing, Answer::No) => LengthCall::Finished,
        (LengthCall::SetZero, Answer::Done) => LengthCall::Finished,
        _ => LengthCall::RaiseCurrent,
    }
}

/// What is so about a body's length.
pub struct LengthFacts {
    /// The length that was measured.
    pub length: nat,
    /// The method is `GET` or `HEAD`.
    pub takes_no_body: bool,
}

/// What Python answers about a body's length, given the `Content-Length` that the
/// headers hold.
pub open spec fn length_answer(facts: LengthFacts, header: Option<nat>, call: LengthCall) -> Answer {
    let yes = match call {
        LengthCall::MeasureBody => facts.length > 0,
        LengthCall::TestMethod => facts.takes_no_body,
        _ => header is None,
    };
    match call {
        LengthCall::SetMeasured | LengthCall::SetZero => Answer::Done,
        _ => if yes {
            Answer::Yes
        } else {
            Answer::No
        },
    }
}

/// The `Content-Length` that the headers hold after a call.
pub open spec fn header_after(facts: LengthFacts, header: Option<nat>, call: LengthCall) -> Option<
    nat,
> {
    match call {
        LengthCall::SetMeasured => Some(facts.length),
        LengthCall::SetZero => Some(0),
        _ => header,
    }
}

/// The `Content-Length` that the headers hold in the end, and the last call, with
/// at most so many calls.
pub open spec fn length_in_the_end(
    facts: LengthFacts,
    header: Option<nat>,
    call: LengthCall,
    limit: nat,
) -> (Option<nat>, LengthCall)
    decreases limit,
{
    if limit == 0 || call is Finished || call is RaiseCurrent {
        (header, call)
    } else {
        length_in_the_end(
            facts,
            header_after(facts, header, call),
            next_length_call(call, length_answer(facts, header, call)),
            (limit - 1) as nat,
        )
    }
}

/// A body with a true length gets that length as its `Content-Length`, whatever
/// the headers held. Without a body it is zero where the method may have one and
/// the headers held none. In every other case the headers stay as they were.
pub proof fn law_length_is_that_of_the_body(
    facts: LengthFacts,
    body_is_none: bool,
    header: Option<nat>,
    limit: nat,
)
    requires
        limit >= 3,
    ensures
        length_in_the_end(facts, header, first_length_call(body_is_none), limit) == (
            if !body_is_none && facts.length > 0 {
                Some(facts.length)
            } else if body_is_none && !facts.takes_no_body && header is None {
                Some(0nat)
            } else {
                header
            },
            LengthCall::Finished,
        ),
        forall|call: LengthCall|
            #[trigger] next_length_call(call, Answer::Raised) is RaiseCurrent,
{
    reveal_with_fuel(length_in_the_end, 4);
}

/// What Python does next to rewind a body.
#[derive(Clone, Copy, Debug, PartialEq, Eq, Structural)]
pub enum RewindCall {
    /// Does the body have `seek`?
    FetchSeek,
    /// Is the remembered position an integer?
    TestPosition,
    /// Seek to it.
    Seek,
    /// Is the error an `OSError`?
    MatchSeekError,
    Finished,
    /// Raise `UnrewindableBodyError` in the context of the error.
    RaiseSeekFailed,
    /// Raise `UnrewindableBodyError`.
    RaiseUnable,
    RaiseCurrent,
}

impl RewindCall {
    /// The message of the error, where one is raised.
    pub open spec fn words(self) -> Option<Seq<char>> {
        match self {
            RewindCall::RaiseSeekFailed => Some(
                "An error occurred when rewinding request body for redirect."@,
            ),
            RewindCall::RaiseUnable => Some("Unable to rewind request body for redirect."@),
            _ => None,
        }
    }

    /// The message of the error, where one is raised.
    pub fn message(&self) -> (text: Option<String>)
        ensures
            match text {
                Some(text) => self.words() == Some(text@),
                None => self.words() is None,
            },
    {
        match self {
            RewindCall::RaiseSeekFailed => Some(
                String::from_str("An error occurred when rewinding request body for redirect."),
            ),
            RewindCall::RaiseUnable => Some(
                String::from_str("Unable to rewind request body for redirect."),
            ),
            _ => None,
        }
    }
}

/// The call after another one to rewind a body was answered.
pub open spec fn next_rewind_call(call: RewindCall, answer: Answer) -> RewindCall {
    match (call, answer) {
        (RewindCall::FetchSeek, Answer::Yes) => RewindCall::TestPosition,
        (RewindCall::FetchSeek, Answer::No) => RewindCall::RaiseUnable,
        (RewindCall::TestPosition, Answer::Yes) => RewindCall::Seek,
        (RewindCall::TestPosition, Answer::No) => RewindCall::RaiseUnable,
        (RewindCall::Seek, Answer::Done) => RewindCall::Finished,
        (RewindCall::Seek, Answer::Raised) => RewindCall::MatchSeekError,
        (RewindCall::MatchSeekError, Answer::Yes) => RewindCall::RaiseSeekFailed,
        _ => RewindCall::RaiseCurrent,
    }
}

/// Goes on with the rewinding of a body, which begins with `FetchSeek`.
pub fn rewind_body(call: RewindCall, answer: Answer) -> (next: RewindCall)
    ensures
        next == next_rewind_call(call, answer),
{
    match (call, answer) {
        (RewindCall::FetchSeek, Answer::Yes) => RewindCall::TestPosition,
        (RewindCall::FetchSeek, Answer::No) => RewindCall::RaiseUnable,
        (RewindCall::TestPosition, Answer::Yes) => RewindCall::Seek,
        (RewindCall::TestPosition, Answer::No) => RewindCall::RaiseUnable,
        (RewindCall::Seek, Answer::Done) => RewindCall::Finished,
        (RewindCall::Seek, Answer::Raised) => RewindCall::MatchSeekError,
        (RewindCall::MatchSeekError, Answer::Yes) => RewindCall::RaiseSeekFailed,
        _ => RewindCall::RaiseCurrent,
    }
}

/// The message of a list of values that is not a pair.
pub open spec fn unpack_words(count: nat) -> Option<Seq<char>> {
    if count == 2 {
        None
    } else if count < 2 {
        Some("not enough values to unpack (expected 2, got "@ + decimal(count) + ")"@)
    } else {
        Some("too many values to unpack (expected 2)"@)
    }
}

/// Takes a pair out of the values that iteration gave; of more than two, the
/// first three are enough to tell.
pub fn unpack_pair(values: &Vec<usize>) -> (pair: Result<(usize, usize), String>)
    ensures
        match pair {
            Ok(pair) => values@.len() == 2 && pair.0 == values@[0] && pair.1 == values@[1],
            Err(message) => unpack_words(values@.len()) == Some(message@),
        },
{
    if values.len() == 2 {
        Ok((values[0], values[1]))
    } else if values.len() < 2 {
        let mut message = String::from_str("not enough values to unpack (expected 2, got ");
        message.append(render_decimal(values.len() as u64).as_str());
        message.append(")");
        Err(message)
    } else {
        Err(String::from_str("too many values to unpack (expected 2)"))
    }
}

/// A point of a stream's life at which it is cancelled.
#[derive(Clone, Copy, Debug, PartialEq, Eq, Structural)]
pub enum CancelPhase {
    BeforePoll,
    QueuedBeforeDequeue,
    ReplyObserved,
}

/// The phase of a name.
pub open spec fn phase_named(name: Seq<char>) -> Option<CancelPhase> {
    if name == "before-poll"@ {
        Some(CancelPhase::BeforePoll)
    } else if name == "queued-before-dequeue"@ {
        Some(CancelPhase::QueuedBeforeDequeue)
    } else if name == "reply-observed"@ {
        Some(CancelPhase::ReplyObserved)
    } else {
        None
    }
}

/// The phase of a name, or the message for an unknown one.
pub fn cancel_phase(name: &str) -> (phase: Result<CancelPhase, String>)
    ensures
        match phase {
            Ok(phase) => phase_named(name@) == Some(phase),
            Err(message) => phase_named(name@) is None && message@
                == "unknown body cancellation phase: "@ + name@,
        },
{
    if same_text(name, "before-poll") {
        Ok(CancelPhase::BeforePoll)
    } else if same_text(name, "queued-before-dequeue") {
        Ok(CancelPhase::QueuedBeforeDequeue)
    } else if same_text(name, "reply-observed") {
        Ok(CancelPhase::ReplyObserved)
    } else {
        Err(String::from_str("unknown body cancellation phase: ").concat(name))
    }
}

/// What was seen of a stream that was cancelled.
#[derive(Clone, Copy, Debug, PartialEq, Eq, Structural)]
pub struct CancelFacts {
    pub worker_dropped: bool,
    pub queued: u8,
    pub executed: u8,
    pub replies: u8,
    pub handler_failed: bool,
    pub failure: AdapterFailure,
}

/// What is wrong with a cancellation.
#[derive(Clone, Copy, Debug, PartialEq, Eq, Structural)]
pub enum CancelError {
    WorkerAlive,
    RanBeforePoll,
    RanBeforeDequeue,
    HandlerFailed,
    Mismatch { queued: u8, executed: u8, replies: u8 },
    Failure(AdapterFailure),
}

impl CancelError {
    /// The message of the error, where the error is not one that was raised
    /// before.
    pub open spec fn words(self) -> Option<Seq<char>> {
        match self {
            CancelError::WorkerAlive => Some(
                "body worker was not dropped before its origin owner"@,
            ),
            CancelError::RanBeforePoll => Some("body action ran before the adapter was polled"@),
            CancelError::RanBeforeDequeue => Some(
                "queued body action executed before cancellation"@,
            ),
            CancelError::HandlerFailed => None,
            CancelError::Mismatch { queued, executed, replies } => Some(
                "reply-observed cancellation mismatch: queued="@ + decimal(queued as nat)
                    + ", executed="@ + decimal(executed as nat) + ", replies="@ + decimal(
                    replies as nat,
                ),
            ),
            CancelError::Failure(failure) => Some(crate::body_stream::failure_words(failure)),
        }
    }

    /// The message of the error.
    pub fn message(&self) -> (text: Option<String>)
        ensures
            match text {
                Some(text) => self.words() == Some(text@),
                None => self.words() is None,
            },
    {
        match self {
            CancelError::WorkerAlive => Some(
                String::from_str("body worker was not dropped before its origin owner"),
            ),
            CancelError::RanBeforePoll => Some(
                String::from_str("body action ran before the adapter was polled"),
            ),
            CancelError::RanBeforeDequeue => Some(
                String::from_str("queued body action executed before cancellation"),
            ),
            CancelError::HandlerFailed => None,
            CancelError::Mismatch { queued, executed, replies } => {
                let mut text = String::from_str("reply-observed cancellation mismatch: queued=");
                text.append(render_decimal(*queued as u64).as_str());
                text.append(", executed=");
                text.append(render_decimal(*executed as u64).as_str());
                text.append(", replies=");
                text.append(render_decimal(*replies as u64).as_str());
                Some(text)
            },
            CancelError::Failure(failure) => Some(crate::body_stream::bridge_error(*failure)),
        }
    }
}

/// What is wrong with a cancellation at a phase, if anything: before the first
/// poll nothing has happened, before the action is taken up it is only queued,
/// and after the reply one action was queued, executed and answered.
pub open spec fn cancel_fault(phase: CancelPhase, facts: CancelFacts) -> Option<CancelError> {
    if !facts.worker_dropped {
        Some(CancelError::WorkerAlive)
    } else {
        match phase {
            CancelPhase::BeforePoll => if facts.queued != 0 || facts.executed != 0 || facts.replies
                != 0 {
                Some(CancelError::RanBeforePoll)
            } else {
                None
            },
            CancelPhase::QueuedBeforeDequeue => if facts.queued != 1 || facts.executed != 0
                || facts.replies != 0 {
                Some(CancelError::RanBeforeDequeue)
            } else {
                None
            },
            CancelPhase::ReplyObserved => if facts.handler_failed {
                Some(CancelError::HandlerFailed)
            } else if facts.queued != 1 || facts.executed != 1 || facts.replies != 1 {
                Some(
                    CancelError::Mismatch {
                        queued: facts.queued,
                        executed: facts.executed,
                        replies: facts.replies,
                    },
                )
            } else if !(facts.failure is Absent) {
                Some(CancelError::Failure(facts.failure))
            } else {
                None
            },
        }
    }
}

/// Checks a cancellation.
pub fn cancel_body_at_phase(phase: CancelPhase, facts: CancelFacts) -> (fault: Option<CancelError>)
    ensures
        fault == cancel_fault(phase, facts),
{
    if !facts.worker_dropped {
        return Some(CancelError::WorkerAlive);
    }
    match phase {
        CancelPhase::BeforePoll => if facts.queued != 0 || facts.executed != 0 || facts.replies
            != 0 {
            Some(CancelError::RanBeforePoll)
        } else {
            None
        },
        CancelPhase::QueuedBeforeDequeue => if facts.queued != 1 || facts.executed != 0
            || facts.replies != 0 {
            Some(CancelError::RanBeforeDequeue)
        } else {
            None
        },
        CancelPhase::ReplyObserved => {
            if facts.handler_failed {
                return Some(CancelError::HandlerFailed);
            }
            if facts.queued != 1 || facts.executed != 1 || facts.replies != 1 {
                return Some(
                    CancelError::Mismatch {
                        queued: facts.queued,
                        executed: facts.executed,
                        replies: facts.replies,
                    },
                );
            }
            match facts.failure {
                AdapterFailure::Absent => None,
                failure => Some(CancelError::Failure(failure)),
            }
        },
    }
}

/// The character of a hexadecimal digit.
pub open spec fn hex_char(digit: nat) -> char {
    if digit < 10 {
        (0x30 + digit) as char
    } else {
        (0x57 + digit) as char
    }
}

/// The hexadecimal digits of a byte string, in small letters.
pub open spec fn hex_text(bytes: Seq<u8>) -> Seq<char>
    decreases bytes.len(),
{
    if bytes.len() == 0 {
        Seq::empty()
    } else {
        hex_text(bytes.drop_last()) + seq![
            hex_char((bytes.last() / 16) as nat),
            hex_char((bytes.last() % 16) as nat),
        ]
    }
}

/// The text of one hexadecimal digit.
fn hex_digit(digit: u8) -> (text: &'static str)
    requires
        digit < 16,
    ensures
        text@ == seq![hex_char(digit as nat)],
{
    proof {
        reveal_strlit("0");
        reveal_strlit("1");
        reveal_strlit("2");
        reveal_strlit("3");
        reveal_strlit("4");
        reveal_strlit("5");
        reveal_strlit("6");
        reveal_strlit("7");
        reveal_strlit("8");
        reveal_strlit("9");
        reveal_strlit("a");
        reveal_strlit("b");
        reveal_strlit("c");
        reveal_strlit("d");
        reveal_strlit("e");
        reveal_strlit("f");
    }
    let text: &'static str = if digit == 0 {
        "0"
    } else if digit == 1 {
        "1"
    } else if digit == 2 {
        "2"
    } else if digit == 3 {
        "3"
    } else if digit == 4 {
        "4"
    } else if digit == 5 {
        "5"
    } else if digit == 6 {
        "6"
    } else if digit == 7 {
        "7"
    } else if digit == 8 {
        "8"
    } else if digit == 9 {
        "9"
    } else if digit == 10 {
        "a"
    } else if digit == 11 {
        "b"
    } else if digit == 12 {
        "c"
    } else if digit == 13 {
        "d"
    } else if digit == 14 {
        "e"
    } else {
        "f"
    };
    assert(text@ =~= seq![hex_char(digit as nat)]);
    text
}

/// Writes a byte string in hexadecimal.
pub fn hex_record(bytes: &[u8]) -> (text: String)
    ensures
        text@ == hex_text(bytes@),
{
    let mut text = String::new();
    let mut index: usize = 0;
    while index < bytes.len()
        invariant
            index <= bytes.len(),
            text@ == hex_text(bytes@.take(index as int)),
        decreases bytes.len() - index,
    {
        let ghost before = text@;
        let byte: u8 = bytes[index];
        text.append(hex_digit(byte / 16));
        text.append(hex_digit(byte % 16));
        index = index + 1;
        proof {
            assert(bytes@.take(index as int).drop_last() =~= bytes@.take(index - 1));
            assert(bytes@.take(index as int).last() == byte);
            assert(text@ =~= before + seq![
                hex_char((byte / 16) as nat),
                hex_char((byte % 16) as nat),
            ]);
        }
    }
    assert(bytes@.take(index as int) =~= bytes@);
    text
}

/// What is so about a body that is to be rewound.
#[derive(Clone, Copy, Debug, PartialEq, Eq, Structural)]
pub struct RewindFacts {
    pub has_seek: bool,
    pub position_is_known: bool,
    pub seek_fails: bool,
    /// The error of the seek is an `OSError`.
    pub is_os_error: bool,
}

/// What Python answers while a body is rewound.
pub open spec fn rewind_answer(facts: RewindFacts, call: RewindCall) -> Answer {
    let yes = match call {
        RewindCall::FetchSeek => facts.has_seek,
        RewindCall::TestPosition => facts.position_is_known,
        _ => facts.is_os_error,
    };
    match call {
        RewindCall::Seek => if facts.seek_fails {
            Answer::Raised
        } else {
            Answer::Done
        },
        _ => if yes {
            Answer::Yes
        } else {
            Answer::No
        },
    }
}

/// Where the rewinding of a body ends, with at most so many calls, and whether
/// the body was sought.
pub open spec fn rewound(facts: RewindFacts, call: RewindCall, limit: nat) -> (RewindCall, bool)
    decreases limit,
{
    match call {
        RewindCall::FetchSeek
        | RewindCall::TestPosition
        | RewindCall::Seek
        | RewindCall::MatchSeekError => if limit == 0 {
            (call, false)
        } else {
            let (end, sought) = rewound(
                facts,
                next_rewind_call(call, rewind_answer(facts, call)),
                (limit - 1) as nat,
            );
            (end, sought || call is Seek)
        },
        _ => (call, false),
    }
}

/// A body is rewound exactly where it can seek and its position is known; without
/// one of these it cannot be. A seek that fails in the system is told as an error
/// of the rewinding, and any other error goes on.
pub proof fn law_bodies_are_rewound_where_they_can_be(facts: RewindFacts, limit: nat)
    requires
        limit >= 4,
    ensures
        ({
            let (end, sought) = rewound(facts, RewindCall::FetchSeek, limit);
            &&& sought <==> facts.has_seek && facts.position_is_known
            &&& end is RaiseUnable <==> !sought
            &&& end is Finished <==> sought && !facts.seek_fails
            &&& end is RaiseSeekFailed <==> sought && facts.seek_fails && facts.is_os_error
            &&& end is RaiseCurrent <==> sought && facts.seek_fails && !facts.is_os_error
        }),
{
    reveal_with_fuel(rewound, 5);
}

/// A cancellation is in order exactly where its worker is gone and no more has
/// happened than its phase allows: nothing before the first poll, one queued
/// action before it is taken up, and one action that was queued, executed and
/// answered without a failure once its reply was seen.
pub proof fn law_cancellations_leave_nothing_behind(phase: CancelPhase, facts: CancelFacts)
    ensures
        cancel_fault(phase, facts) is None <==> {
            &&& facts.worker_dropped
            &&& facts.queued == (if phase is BeforePoll {
                0u8
            } else {
                1u8
            })
            &&& facts.executed == facts.replies
            &&& facts.executed == (if phase is ReplyObserved {
                1u8
            } else {
                0u8
            })
            &&& phase is ReplyObserved ==> !facts.handler_failed && facts.failure is Absent
        },
        !facts.worker_dropped ==> cancel_fault(phase, facts) == Some(CancelError::WorkerAlive),
{
}

/// A name stands for one phase of a cancellation only.
pub proof fn law_names_of_cancel_phases(name: Seq<char>)
    ensures
        phase_named(name) == Some(CancelPhase::BeforePoll) ==> name == "before-poll"@,
        phase_named(name) == Some(CancelPhase::QueuedBeforeDequeue) ==> name
            == "queued-before-dequeue"@,
        phase_named(name) == Some(CancelPhase::ReplyObserved) ==> name == "reply-observed"@,
        phase_named(name) is None <==> name != "before-poll"@ && name != "queued-before-dequeue"@
            && name != "reply-observed"@,
{
}

/// The number that a hexadecimal digit stands for.
pub open spec fn hex_value(digit: char) -> int {
    if digit <= '9' {
        digit as int - '0' as int
    } else {
        digit as int - 'a' as int + 10
    }
}

/// Each byte is told by two digits, the higher first, and reads back from them.
pub proof fn law_hexadecimal_reads_back(bytes: Seq<u8>)
    ensures
        hex_text(bytes).len() == 2 * bytes.len(),
        forall|index: int|
            0 <= index < bytes.len() ==> 16 * hex_value(hex_text(bytes)[2 * index]) + hex_value(
                hex_text(bytes)[2 * index + 1],
            ) == #[trigger] bytes[index],
    decreases bytes.len(),
{
    if bytes.len() > 0 {
        let before = bytes.drop_last();
        law_hexadecimal_reads_back(before);
        let high = (bytes.last() / 16) as nat;
        let low = (bytes.last() % 16) as nat;
        assert(hex_value(hex_char(high)) == high);
        assert(hex_value(hex_char(low)) == low);
        assert forall|index: int| 0 <= index < bytes.len() implies 16 * hex_value(
            hex_text(bytes)[2 * index],
        ) + hex_value(hex_text(bytes)[2 * index + 1]) == #[trigger] bytes[index] by {
            if index < before.len() {
                assert(bytes[index] == before[index]);
                assert(hex_text(bytes)[2 * index] == hex_text(before)[2 * index]);
                assert(hex_text(bytes)[2 * index + 1] == hex_text(before)[2 * index + 1]);
            }
        }
    }
}

/// Each function of bodies is at home in its own module.
pub proof fn law_modules_of_body_function()
    ensures
        BodyFunction::RewindBody.home() == "requests.utils"@,
{
}

/// Each function of bodies has its own full name.
pub proof fn law_full_names_of_body_function()
    ensures
        BodyFunction::PrepareBody.qualname() == "PreparedRequest.prepare_body"@,
        BodyFunction::PrepareContentLength.qualname() == "PreparedRequest.prepare_content_length"@,
        BodyFunction::RewindBody.qualname() == "rewind_body"@,
{
}

} // verus!
