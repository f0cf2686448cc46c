//! The response class as it was first met, and whether one of its members can
//! be carried out natively.

use vstd::prelude::*;
use vstd::string::StringExecFns;

use crate::canonical::{canonical_code, is_function, loaded_code, python_function};
use crate::cookie_shape::class_at;
use crate::heap::{both, Check, Failure, Heap};
use crate::intrinsic::{intrinsic_builtin_name_is, names_intrinsic};
use crate::known::{codes_equal, same_code};
use crate::landmarks::{check_type_entry, is_module, module_object, type_entry_is};
use crate::model_state::{is_type, type_object};

verus! {

/// How many members are guarded.
pub const MEMBERS: usize = 16;

/// How many names the code of the members reads.
pub const GLOBALS: usize = 35;

/// A member of the response class that is guarded.
#[derive(Clone, Copy, Debug, PartialEq, Eq, Structural)]
pub enum ResponseMember {
    Content,
    IterContent,
    IterLines,
    Text,
    ApparentEncoding,
    Json,
    Repr,
    Bool,
    IsOk,
    IsRedirect,
    IsPermanentRedirect,
    NextRequest,
    RaiseForStatus,
    GetState,
    SetState,
    Close,
}

impl ResponseMember {
    /// The Python name.
    pub open spec fn spelled(self) -> Seq<char> {
        match self {
            ResponseMember::Content => "content"@,
            ResponseMember::IterContent => "iter_content"@,
            ResponseMember::IterLines => "iter_lines"@,
            ResponseMember::Text => "text"@,
            ResponseMember::ApparentEncoding => "apparent_encoding"@,
            ResponseMember::Json => "json"@,
            ResponseMember::Repr => "__repr__"@,
            ResponseMember::Bool => "__bool__"@,
            ResponseMember::IsOk => "ok"@,
            ResponseMember::IsRedirect => "is_redirect"@,
            ResponseMember::IsPermanentRedirect => "is_permanent_redirect"@,
            ResponseMember::NextRequest => "next"@,
            ResponseMember::RaiseForStatus => "raise_for_status"@,
            ResponseMember::GetState => "__getstate__"@,
            ResponseMember::SetState => "__setstate__"@,
            ResponseMember::Close => "close"@,
        }
    }

    /// The Python name.
    pub fn name(&self) -> (name: &'static str)
        ensures
            name@ == self.spelled(),
    {
        match self {
            ResponseMember::Content => "content",
            ResponseMember::IterContent => "iter_content",
            ResponseMember::IterLines => "iter_lines",
            ResponseMember::Text => "text",
            ResponseMember::ApparentEncoding => "apparent_encoding",
            ResponseMember::Json => "json",
            ResponseMember::Repr => "__repr__",
            ResponseMember::Bool => "__bool__",
            ResponseMember::IsOk => "ok",
            ResponseMember::IsRedirect => "is_redirect",
            ResponseMember::IsPermanentRedirect => "is_permanent_redirect",
            ResponseMember::NextRequest => "next",
            ResponseMember::RaiseForStatus => "raise_for_status",
            ResponseMember::GetState => "__getstate__",
            ResponseMember::SetState => "__setstate__",
            ResponseMember::Close => "close",
        }
    }

    /// The place in the list of all.
    pub open spec fn place(self) -> nat {
        match self {
            ResponseMember::Content => 0,
            ResponseMember::IterContent => 1,
            ResponseMember::IterLines => 2,
            ResponseMember::Text => 3,
            ResponseMember::ApparentEncoding => 4,
            ResponseMember::Json => 5,
            ResponseMember::Repr => 6,
            ResponseMember::Bool => 7,
            ResponseMember::IsOk => 8,
            ResponseMember::IsRedirect => 9,
            ResponseMember::IsPermanentRedirect => 10,
            ResponseMember::NextRequest => 11,
            ResponseMember::RaiseForStatus => 12,
            ResponseMember::GetState => 13,
            ResponseMember::SetState => 14,
            ResponseMember::Close => 15,
        }
    }

    /// The place in the list of all.
    pub fn index(&self) -> (index: usize)
        ensures
            index == self.place(),
            index < MEMBERS,
    {
        match self {
            ResponseMember::Content => 0,
            ResponseMember::IterContent => 1,
            ResponseMember::IterLines => 2,
            ResponseMember::Text => 3,
            ResponseMember::ApparentEncoding => 4,
            ResponseMember::Json => 5,
            ResponseMember::Repr => 6,
            ResponseMember::Bool => 7,
            ResponseMember::IsOk => 8,
            ResponseMember::IsRedirect => 9,
            ResponseMember::IsPermanentRedirect => 10,
            ResponseMember::NextRequest => 11,
            ResponseMember::RaiseForStatus => 12,
            ResponseMember::GetState => 13,
            ResponseMember::SetState => 14,
            ResponseMember::Close => 15,
        }
    }

    /// The one at a place.
    pub fn at_index(index: usize) -> (member: ResponseMember)
        requires
            index < MEMBERS,
        ensures
            member.place() == index,
    {
        match index {
            0 => ResponseMember::Content,
            1 => ResponseMember::IterContent,
            2 => ResponseMember::IterLines,
            3 => ResponseMember::Text,
            4 => ResponseMember::ApparentEncoding,
            5 => ResponseMember::Json,
            6 => ResponseMember::Repr,
            7 => ResponseMember::Bool,
            8 => ResponseMember::IsOk,
            9 => ResponseMember::IsRedirect,
            10 => ResponseMember::IsPermanentRedirect,
            11 => ResponseMember::NextRequest,
            12 => ResponseMember::RaiseForStatus,
            13 => ResponseMember::GetState,
            14 => ResponseMember::SetState,
            _ => ResponseMember::Close,
        }
    }
}

impl ResponseMember {
    /// The qualified name.
    pub open spec fn qualname(self) -> Seq<char> {
        match self {
            ResponseMember::Content => "Response.content"@,
            ResponseMember::IterContent => "Response.iter_content"@,
            ResponseMember::IterLines => "Response.iter_lines"@,
            ResponseMember::Text => "Response.text"@,
            ResponseMember::ApparentEncoding => "Response.apparent_encoding"@,
            ResponseMember::Json => "Response.json"@,
            ResponseMember::Repr => "Response.__repr__"@,
            ResponseMember::Bool => "Response.__bool__"@,
            ResponseMember::IsOk => "Response.ok"@,
            ResponseMember::IsRedirect => "Response.is_redirect"@,
            ResponseMember::IsPermanentRedirect => "Response.is_permanent_redirect"@,
            ResponseMember::NextRequest => "Response.next"@,
            ResponseMember::RaiseForStatus => "Response.raise_for_status"@,
            ResponseMember::GetState => "Response.__getstate__"@,
            ResponseMember::SetState => "Response.__setstate__"@,
            ResponseMember::Close => "Response.close"@,
        }
    }

    /// The qualified name.
    pub fn qualified_name(&self) -> (name: &'static str)
        ensures
            name@ == self.qualname(),
    {
        match self {
            ResponseMember::Content => "Response.content",
            ResponseMember::IterContent => "Response.iter_content",
            ResponseMember::IterLines => "Response.iter_lines",
            ResponseMember::Text => "Response.text",
            ResponseMember::ApparentEncoding => "Response.apparent_encoding",
            ResponseMember::Json => "Response.json",
            ResponseMember::Repr => "Response.__repr__",
            ResponseMember::Bool => "Response.__bool__",
            ResponseMember::IsOk => "Response.ok",
            ResponseMember::IsRedirect => "Response.is_redirect",
            ResponseMember::IsPermanentRedirect => "Response.is_permanent_redirect",
            ResponseMember::NextRequest => "Response.next",
            ResponseMember::RaiseForStatus => "Response.raise_for_status",
            ResponseMember::GetState => "Response.__getstate__",
            ResponseMember::SetState => "Response.__setstate__",
            ResponseMember::Close => "Response.close",
        }
    }

    /// Whether the member is a property.
    pub open spec fn is_property(self) -> bool {
        ||| self is Content
        ||| self is Text
        ||| self is ApparentEncoding
        ||| self is IsOk
        ||| self is IsRedirect
        ||| self is IsPermanentRedirect
        ||| self is NextRequest
    }

    /// Whether the member is a property.
    pub fn property(&self) -> (yes: bool)
        ensures
            yes == self.is_property(),
    {
        match self {
            ResponseMember::Content | ResponseMember::Text | ResponseMember::ApparentEncoding | ResponseMember::IsOk | ResponseMember::IsRedirect | ResponseMember::IsPermanentRedirect | ResponseMember::NextRequest => true,
            _ => false,
        }
    }

    /// Whether an instance can shadow the member.
    pub open spec fn is_shadowable(self) -> bool {
        ||| self is IterContent
        ||| self is IterLines
        ||| self is Json
        ||| self is RaiseForStatus
        ||| self is GetState
        ||| self is SetState
        ||| self is Close
    }

    /// Whether an instance can shadow the member.
    pub fn shadowable(&self) -> (yes: bool)
        ensures
            yes == self.is_shadowable(),
    {
        match self {
            ResponseMember::IterContent | ResponseMember::IterLines | ResponseMember::Json | ResponseMember::RaiseForStatus | ResponseMember::GetState | ResponseMember::SetState | ResponseMember::Close => true,
            _ => false,
        }
    }
}

/// A name that the code of the response class reads.
#[derive(Clone, Copy, Debug, PartialEq, Eq, Structural)]
pub enum ResponseGlobal {
    ContentChunkSize,
    IterSlices,
    StreamDecodeResponseUnicode,
    ProtocolError,
    DecodeError,
    ReadTimeoutError,
    SslError,
    ChunkedEncodingError,
    ContentDecodingError,
    ConnectionError,
    RequestsSslError,
    StreamConsumedError,
    Chardet,
    Complexjson,
    GuessJsonUtf,
    JsonDecodeError,
    RequestsJsonDecodeError,
    HttpError,
    RedirectStatuses,
    Codes,
    GetAttr,
    SetAttr,
    BoolType,
    IntType,
    HasAttr,
    Cast,
    BytesType,
    UnicodeDecodeError,
    StrType,
    IsInstance,
    TypeType,
    Length,
    RuntimeError,
    LookupError,
    TypeError,
}

impl ResponseGlobal {
    /// The Python name.
    pub open spec fn spelled(self) -> Seq<char> {
        match self {
            ResponseGlobal::ContentChunkSize => "CONTENT_CHUNK_SIZE"@,
            ResponseGlobal::IterSlices => "iter_slices"@,
            ResponseGlobal::StreamDecodeResponseUnicode => "stream_decode_response_unicode"@,
            ResponseGlobal::ProtocolError => "ProtocolError"@,
            ResponseGlobal::DecodeError => "DecodeError"@,
            ResponseGlobal::ReadTimeoutError => "ReadTimeoutError"@,
            ResponseGlobal::SslError => "SSLError"@,
            ResponseGlobal::ChunkedEncodingError => "ChunkedEncodingError"@,
            ResponseGlobal::ContentDecodingError => "ContentDecodingError"@,
            ResponseGlobal::ConnectionError => "ConnectionError"@,
            ResponseGlobal::RequestsSslError => "RequestsSSLError"@,
            ResponseGlobal::StreamConsumedError => "StreamConsumedError"@,
            ResponseGlobal::Chardet => "chardet"@,
            ResponseGlobal::Complexjson => "complexjson"@,
            ResponseGlobal::GuessJsonUtf => "guess_json_utf"@,
            ResponseGlobal::JsonDecodeError => "JSONDecodeError"@,
            ResponseGlobal::RequestsJsonDecodeError => "RequestsJSONDecodeError"@,
            ResponseGlobal::HttpError => "HTTPError"@,
            ResponseGlobal::RedirectStatuses => "REDIRECT_STATI"@,
            ResponseGlobal::Codes => "codes"@,
            ResponseGlobal::GetAttr => "getattr"@,
            ResponseGlobal::SetAttr => "setattr"@,
            ResponseGlobal::BoolType => "bool"@,
            ResponseGlobal::IntType => "int"@,
            ResponseGlobal::HasAttr => "hasattr"@,
            ResponseGlobal::Cast => "cast"@,
            ResponseGlobal::BytesType => "bytes"@,
            ResponseGlobal::UnicodeDecodeError => "UnicodeDecodeError"@,
            ResponseGlobal::StrType => "str"@,
            ResponseGlobal::IsInstance => "isinstance"@,
            ResponseGlobal::TypeType => "type"@,
            ResponseGlobal::Length => "len"@,
            ResponseGlobal::RuntimeError => "RuntimeError"@,
            ResponseGlobal::LookupError => "LookupError"@,
            ResponseGlobal::TypeError => "TypeError"@,
        }
    }

    /// The Python name.
    pub fn name(&self) -> (name: &'static str)
        ensures
            name@ == self.spelled(),
    {
        match self {
            ResponseGlobal::ContentChunkSize => "CONTENT_CHUNK_SIZE",
            ResponseGlobal::IterSlices => "iter_slices",
            ResponseGlobal::StreamDecodeResponseUnicode => "stream_decode_response_unicode",
            ResponseGlobal::ProtocolError => "ProtocolError",
            ResponseGlobal::DecodeError => "DecodeError",
            ResponseGlobal::ReadTimeoutError => "ReadTimeoutError",
            ResponseGlobal::SslError => "SSLError",
            ResponseGlobal::ChunkedEncodingError => "ChunkedEncodingError",
            ResponseGlobal::ContentDecodingError => "ContentDecodingError",
            ResponseGlobal::ConnectionError => "ConnectionError",
            ResponseGlobal::RequestsSslError => "RequestsSSLError",
            ResponseGlobal::StreamConsumedError => "StreamConsumedError",
            ResponseGlobal::Chardet => "chardet",
            ResponseGlobal::Complexjson => "complexjson",
            ResponseGlobal::GuessJsonUtf => "guess_json_utf",
            ResponseGlobal::JsonDecodeError => "JSONDecodeError",
            ResponseGlobal::RequestsJsonDecodeError => "RequestsJSONDecodeError",
            ResponseGlobal::HttpError => "HTTPError",
            ResponseGlobal::RedirectStatuses => "REDIRECT_STATI",
            ResponseGlobal::Codes => "codes",
            ResponseGlobal::GetAttr => "getattr",
            ResponseGlobal::SetAttr => "setattr",
            ResponseGlobal::BoolType => "bool",
            ResponseGlobal::IntType => "int",
            ResponseGlobal::HasAttr => "hasattr",
            ResponseGlobal::Cast => "cast",
            ResponseGlobal::BytesType => "bytes",
            ResponseGlobal::UnicodeDecodeError => "UnicodeDecodeError",
            ResponseGlobal::StrType => "str",
            ResponseGlobal::IsInstance => "isinstance",
            ResponseGlobal::TypeType => "type",
            ResponseGlobal::Length => "len",
            ResponseGlobal::RuntimeError => "RuntimeError",
            ResponseGlobal::LookupError => "LookupError",
            ResponseGlobal::TypeError => "TypeError",
        }
    }

    /// The place in the list of all.
    pub open spec fn place(self) -> nat {
        match self {
            ResponseGlobal::ContentChunkSize => 0,
            ResponseGlobal::IterSlices => 1,
            ResponseGlobal::StreamDecodeResponseUnicode => 2,
            ResponseGlobal::ProtocolError => 3,
            ResponseGlobal::DecodeError => 4,
            ResponseGlobal::ReadTimeoutError => 5,
            ResponseGlobal::SslError => 6,
            ResponseGlobal::ChunkedEncodingError => 7,
            ResponseGlobal::ContentDecodingError => 8,
            ResponseGlobal::ConnectionError => 9,
            ResponseGlobal::RequestsSslError => 10,
            ResponseGlobal::StreamConsumedError => 11,
            ResponseGlobal::Chardet => 12,
            ResponseGlobal::Complexjson => 13,
            ResponseGlobal::GuessJsonUtf => 14,
            ResponseGlobal::JsonDecodeError => 15,
            ResponseGlobal::RequestsJsonDecodeError => 16,
            ResponseGlobal::HttpError => 17,
            ResponseGlobal::RedirectStatuses => 18,
            ResponseGlobal::Codes => 19,
            ResponseGlobal::GetAttr => 20,
            ResponseGlobal::SetAttr => 21,
            ResponseGlobal::BoolType => 22,
            ResponseGlobal::IntType => 23,
            ResponseGlobal::HasAttr => 24,
            ResponseGlobal::Cast => 25,
            ResponseGlobal::BytesType => 26,
            ResponseGlobal::UnicodeDecodeError => 27,
            ResponseGlobal::StrType => 28,
            ResponseGlobal::IsInstance => 29,
            ResponseGlobal::TypeType => 30,
            ResponseGlobal::Length => 31,
            ResponseGlobal::RuntimeError => 32,
            ResponseGlobal::LookupError => 33,
            ResponseGlobal::TypeError => 34,
        }
    }

    /// The place in the list of all.
    pub fn index(&self) -> (index: usize)
        ensures
            index == self.place(),
            index < GLOBALS,
    {
        match self {
            ResponseGlobal::ContentChunkSize => 0,
            ResponseGlobal::IterSlices => 1,
            ResponseGlobal::StreamDecodeResponseUnicode => 2,
            ResponseGlobal::ProtocolError => 3,
            ResponseGlobal::DecodeError => 4,
            ResponseGlobal::ReadTimeoutError => 5,
            ResponseGlobal::SslError => 6,
            ResponseGlobal::ChunkedEncodingError => 7,
            ResponseGlobal::ContentDecodingError => 8,
            ResponseGlobal::ConnectionError => 9,
            ResponseGlobal::RequestsSslError => 10,
            ResponseGlobal::StreamConsumedError => 11,
            ResponseGlobal::Chardet => 12,
            ResponseGlobal::Complexjson => 13,
            ResponseGlobal::GuessJsonUtf => 14,
            ResponseGlobal::JsonDecodeError => 15,
            ResponseGlobal::RequestsJsonDecodeError => 16,
            ResponseGlobal::HttpError => 17,
            ResponseGlobal::RedirectStatuses => 18,
            ResponseGlobal::Codes => 19,
            ResponseGlobal::GetAttr => 20,
            ResponseGlobal::SetAttr => 21,
            ResponseGlobal::BoolType => 22,
            ResponseGlobal::IntType => 23,
            ResponseGlobal::HasAttr => 24,
            ResponseGlobal::Cast => 25,
            ResponseGlobal::BytesType => 26,
            ResponseGlobal::UnicodeDecodeError => 27,
            ResponseGlobal::StrType => 28,
            ResponseGlobal::IsInstance => 29,
            ResponseGlobal::TypeType => 30,
            ResponseGlobal::Length => 31,
            ResponseGlobal::RuntimeError => 32,
            ResponseGlobal::LookupError => 33,
            ResponseGlobal::TypeError => 34,
        }
    }

    /// The one at a place.
    pub fn at_index(index: usize) -> (member: ResponseGlobal)
        requires
            index < GLOBALS,
        ensures
            member.place() == index,
    {
        match index {
            0 => ResponseGlobal::ContentChunkSize,
            1 => ResponseGlobal::IterSlices,
            2 => ResponseGlobal::StreamDecodeResponseUnicode,
            3 => ResponseGlobal::ProtocolError,
            4 => ResponseGlobal::DecodeError,
            5 => ResponseGlobal::ReadTimeoutError,
            6 => ResponseGlobal::SslError,
            7 => ResponseGlobal::ChunkedEncodingError,
            8 => ResponseGlobal::ContentDecodingError,
            9 => ResponseGlobal::ConnectionError,
            10 => ResponseGlobal::RequestsSslError,
            11 => ResponseGlobal::StreamConsumedError,
            12 => ResponseGlobal::Chardet,
            13 => ResponseGlobal::Complexjson,
            14 => ResponseGlobal::GuessJsonUtf,
            15 => ResponseGlobal::JsonDecodeError,
            16 => ResponseGlobal::RequestsJsonDecodeError,
            17 => ResponseGlobal::HttpError,
            18 => ResponseGlobal::RedirectStatuses,
            19 => ResponseGlobal::Codes,
            20 => ResponseGlobal::GetAttr,
            21 => ResponseGlobal::SetAttr,
            22 => ResponseGlobal::BoolType,
            23 => ResponseGlobal::IntType,
            24 => ResponseGlobal::HasAttr,
            25 => ResponseGlobal::Cast,
            26 => ResponseGlobal::BytesType,
            27 => ResponseGlobal::UnicodeDecodeError,
            28 => ResponseGlobal::StrType,
            29 => ResponseGlobal::IsInstance,
            30 => ResponseGlobal::TypeType,
            31 => ResponseGlobal::Length,
            32 => ResponseGlobal::RuntimeError,
            33 => ResponseGlobal::LookupError,
            _ => ResponseGlobal::TypeError,
        }
    }
}

impl ResponseGlobal {
    /// Whether the name is a built-in that the module does not bind.
    pub open spec fn is_built_in(self) -> bool {
        ||| self is GetAttr
        ||| self is SetAttr
        ||| self is BoolType
        ||| self is IntType
        ||| self is HasAttr
        ||| self is BytesType
        ||| self is UnicodeDecodeError
        ||| self is StrType
        ||| self is IsInstance
        ||| self is TypeType
        ||| self is Length
        ||| self is RuntimeError
        ||| self is LookupError
        ||| self is TypeError
    }

    /// Whether the name is a built-in that the module does not bind.
    pub fn built_in(&self) -> (yes: bool)
        ensures
            yes == self.is_built_in(),
    {
        match self {
            ResponseGlobal::GetAttr | ResponseGlobal::SetAttr | ResponseGlobal::BoolType | ResponseGlobal::IntType | ResponseGlobal::HasAttr | ResponseGlobal::BytesType | ResponseGlobal::UnicodeDecodeError | ResponseGlobal::StrType | ResponseGlobal::IsInstance | ResponseGlobal::TypeType | ResponseGlobal::Length | ResponseGlobal::RuntimeError | ResponseGlobal::LookupError | ResponseGlobal::TypeError => true,
            _ => false,
        }
    }

    /// Whether the name is of a helper function, whose code is compared anew
    /// each time.
    pub open spec fn is_helper(self) -> bool {
        self is IterSlices || self is StreamDecodeResponseUnicode || self is GuessJsonUtf
    }

    /// Whether the name is of a helper function.
    pub fn helper(&self) -> (yes: bool)
        ensures
            yes == self.is_helper(),
    {
        match self {
            ResponseGlobal::IterSlices
            | ResponseGlobal::StreamDecodeResponseUnicode
            | ResponseGlobal::GuessJsonUtf => true,
            _ => false,
        }
    }
}

/// What a class's own name space holds under a name.
pub open spec fn direct_entry_of(heap: Heap, class: usize, name: Seq<char>) -> Result<
    Option<usize>,
    Failure,
> {
    match heap.attribute_of(class, "__dict__"@) {
        None => Err(Failure::Attribute),
        Some(namespace) => Ok(heap.entry_of(namespace, name)),
    }
}

/// What a class's own name space holds under a name.
pub fn raw_direct_type_entry(heap: &Heap, class: usize, name: &str) -> (entry: Result<
    Option<usize>,
    Failure,
>)
    ensures
        entry == direct_entry_of(*heap, class, name@),
{
    match heap.attribute(class, "__dict__") {
        None => Err(Failure::Attribute),
        Some(namespace) => Ok(heap.entry(namespace, name)),
    }
}

/// The function behind a member.
pub open spec fn function_behind(heap: Heap, descriptor: usize, property: bool) -> Result<
    usize,
    Failure,
> {
    if property {
        match heap.attribute_of(descriptor, "fget"@) {
            None => Err(Failure::Attribute),
            Some(function) => if is_function(heap, function) {
                Ok(function)
            } else {
                Err(Failure::Kind)
            },
        }
    } else if is_function(heap, descriptor) {
        Ok(descriptor)
    } else {
        Err(Failure::Kind)
    }
}

/// The function behind a member.
pub fn descriptor_function(heap: &Heap, descriptor: usize, property: bool) -> (function: Result<
    usize,
    Failure,
>)
    ensures
        function == function_behind(*heap, descriptor, property),
{
    let function = if property {
        match heap.attribute(descriptor, "fget") {
            None => {
                return Err(Failure::Attribute);
            },
            Some(function) => function,
        }
    } else {
        descriptor
    };
    if python_function(heap, function) {
        Ok(function)
    } else {
        Err(Failure::Kind)
    }
}

/// Whether an attribute is `None`.
pub open spec fn attribute_is_none(heap: Heap, object: usize, name: Seq<char>) -> Check {
    match heap.attribute_of(object, name) {
        None => Err(Failure::Attribute),
        Some(value) => Ok(heap.is_none_value(value)),
    }
}

/// Whether an attribute is `None`.
fn check_attribute_is_none(heap: &Heap, object: usize, name: &str) -> (check: Check)
    ensures
        check == attribute_is_none(*heap, object, name@),
{
    match heap.attribute(object, name) {
        None => Err(Failure::Attribute),
        Some(value) => Ok(heap.none_value(value)),
    }
}

/// Whether a function has a code and globals, no closure and no keyword
/// defaults.
pub open spec fn matches_code(heap: Heap, function: usize, code: usize, globals: usize) -> Check {
    match heap.attribute_of(function, "__code__"@) {
        None => Err(Failure::Attribute),
        Some(current) => both(
            Ok(same_code(heap, current, code)),
            both(
                crate::retry::attribute_is(heap, function, "__globals__"@, globals),
                both(
                    attribute_is_none(heap, function, "__closure__"@),
                    attribute_is_none(heap, function, "__kwdefaults__"@),
                ),
            ),
        ),
    }
}

/// Whether a function has a code and globals, no closure and no keyword
/// defaults.
pub fn function_matches_code(heap: &Heap, function: usize, code: usize, globals: usize) -> (check:
    Check)
    ensures
        check == matches_code(*heap, function, code, globals),
{
    match heap.attribute(function, "__code__") {
        None => {
            return Err(Failure::Attribute);
        },
        Some(current) => if !codes_equal(heap, current, code) {
            return Ok(false);
        },
    }
    match crate::retry::check_attribute_is(heap, function, "__globals__", globals) {
        Ok(true) => {},
        other => {
            return other;
        },
    }
    match check_attribute_is_none(heap, function, "__closure__") {
        Ok(true) => {},
        other => {
            return other;
        },
    }
    check_attribute_is_none(heap, function, "__kwdefaults__")
}

/// A member as its module's source gives it.
#[derive(Clone, Copy, Debug, PartialEq, Eq, Structural)]
pub struct CanonicalDescriptor {
    pub code: usize,
    pub builtins: usize,
}

/// Whether a class's member is the one that the source gives.
pub open spec fn member_matches(
    heap: Heap,
    class: usize,
    member: ResponseMember,
    expected: CanonicalDescriptor,
    globals: usize,
) -> Check {
    match direct_entry_of(heap, class, member.spelled()) {
        Err(failure) => Err(failure),
        Ok(None) => Ok(false),
        Ok(Some(current)) => match function_behind(heap, current, member.is_property()) {
            Err(_) => Ok(false),
            Ok(function) => both(
                matches_code(heap, function, expected.code, globals),
                crate::retry::attribute_is(heap, function, "__builtins__"@, expected.builtins),
            ),
        },
    }
}

/// Whether a class's member is the one that the source gives.
pub fn descriptor_matches(
    heap: &Heap,
    class: usize,
    member: ResponseMember,
    expected: &CanonicalDescriptor,
    globals: usize,
) -> (check: Check)
    ensures
        check == member_matches(*heap, class, member, *expected, globals),
{
    let current = match raw_direct_type_entry(heap, class, member.name()) {
        Err(failure) => {
            return Err(failure);
        },
        Ok(None) => {
            return Ok(false);
        },
        Ok(Some(current)) => current,
    };
    let function = match descriptor_function(heap, current, member.property()) {
        Ok(function) => function,
        Err(_) => {
            return Ok(false);
        },
    };
    match function_matches_code(heap, function, expected.code, globals) {
        Ok(true) => {},
        other => {
            return other;
        },
    }
    crate::retry::check_attribute_is(heap, function, "__builtins__", expected.builtins)
}

/// Whether a value is what a module's name gives.
pub open spec fn is_module_attribute(heap: Heap, value: usize, module: Seq<char>, name: Seq<char>) -> Check {
    match heap.module_of(module) {
        None => Err(Failure::Import),
        Some(found) => crate::retry::attribute_is(heap, found, name, value),
    }
}

/// Whether a value is what a module's name gives.
pub fn known_module_attr_is(heap: &Heap, value: usize, module: &str, name: &str) -> (check: Check)
    ensures
        check == is_module_attribute(*heap, value, module@, name@),
{
    match heap.module(module) {
        None => Err(Failure::Import),
        Some(found) => crate::retry::check_attribute_is(heap, found, name, value),
    }
}

/// Whether a value is a helper function of `requests.utils`, with the code that
/// its source gives.
pub open spec fn is_canonical_helper(heap: Heap, value: usize, name: Seq<char>) -> Check {
    if !is_function(heap, value) {
        Ok(false)
    } else {
        match loaded_code(heap, "requests.utils"@, name) {
            None => Err(Failure::Name),
            Some(code) => match heap.module_of("requests.utils"@) {
                None => Err(Failure::Import),
                Some(module) => match heap.attribute_of(module, "__dict__"@) {
                    None => Err(Failure::Attribute),
                    Some(globals) => matches_code(heap, value, code, globals),
                },
            },
        }
    }
}

/// Whether a value is a helper function of `requests.utils`, with the code that
/// its source gives.
pub fn canonical_helper_is(heap: &Heap, value: usize, name: &str) -> (check: Check)
    ensures
        check == is_canonical_helper(*heap, value, name@),
{
    if !python_function(heap, value) {
        return Ok(false);
    }
    let code = match canonical_code(heap, "requests.utils", name) {
        Some(code) => code,
        None => {
            return Err(Failure::Name);
        },
    };
    let module = match heap.module("requests.utils") {
        Some(module) => module,
        None => {
            return Err(Failure::Import);
        },
    };
    match heap.attribute(module, "__dict__") {
        None => Err(Failure::Attribute),
        Some(globals) => function_matches_code(heap, value, code, globals),
    }
}

/// Whether a value is a module that is registered under its own name.
pub open spec fn is_registered_module(heap: Heap, value: usize) -> Check {
    if !is_module(heap, value) {
        Ok(false)
    } else {
        match heap.attribute_of(value, "__name__"@) {
            None => Err(Failure::Attribute),
            Some(name) => match heap.text_of(name) {
                None => Err(Failure::Kind),
                Some(name) => match heap.module_of("sys"@) {
                    None => Err(Failure::Import),
                    Some(sys) => match heap.attribute_of(sys, "modules"@) {
                        None => Err(Failure::Attribute),
                        Some(modules) => match heap.entry_of(modules, name) {
                            None => Err(Failure::Item),
                            Some(found) => Ok(found == value),
                        },
                    },
                },
            },
        }
    }
}

/// Whether a value is a module that is registered under its own name.
pub fn module_identity_is_current(heap: &Heap, value: usize) -> (check: Check)
    ensures
        check == is_registered_module(*heap, value),
{
    if !module_object(heap, value) {
        return Ok(false);
    }
    let name = match heap.attribute(value, "__name__") {
        Some(name) => name,
        None => {
            return Err(Failure::Attribute);
        },
    };
    let name = match heap.text(name) {
        Some(name) => name,
        None => {
            return Err(Failure::Kind);
        },
    };
    let sys = match heap.module("sys") {
        Some(sys) => sys,
        None => {
            return Err(Failure::Import);
        },
    };
    let modules = match heap.attribute(sys, "modules") {
        Some(modules) => modules,
        None => {
            return Err(Failure::Attribute);
        },
    };
    match heap.entry(modules, name.as_str()) {
        None => Err(Failure::Item),
        Some(found) => Ok(found == value),
    }
}

/// The status that a value stands for.
pub open spec fn status_of(heap: Heap, value: usize) -> Option<u16> {
    match heap.index_of(value) {
        Some(number) => if 0 <= number <= u16::MAX {
            Some(number as u16)
        } else {
            None
        },
        None => None,
    }
}

/// The status that a value stands for.
fn status_value(heap: &Heap, value: usize) -> (status: Option<u16>)
    ensures
        status == status_of(*heap, value),
{
    match heap.index_value(value) {
        Some(number) => if 0 <= number && number <= u16::MAX as i128 {
            Some(number as u16)
        } else {
            None
        },
        None => None,
    }
}

/// The statuses of a list; one that is none leaves no answer.
pub open spec fn statuses_of(heap: Heap, values: Seq<usize>) -> Option<Seq<u16>>
    decreases values.len(),
{
    if values.len() == 0 {
        Some(Seq::empty())
    } else {
        match (statuses_of(heap, values.drop_last()), status_of(heap, values.last())) {
            (Some(before), Some(status)) => Some(before.push(status)),
            _ => None,
        }
    }
}

/// One value that is no status leaves none.
proof fn lemma_statuses_stop(heap: Heap, values: Seq<usize>, count: nat)
    requires
        count <= values.len(),
        statuses_of(heap, values.take(count as int)) is None,
    ensures
        statuses_of(heap, values) is None,
    decreases values.len() - count,
{
    if count == values.len() {
        assert(values.take(count as int) =~= values);
    } else {
        assert(values.take((count + 1) as int).drop_last() =~= values.take(count as int));
        lemma_statuses_stop(heap, values, count + 1);
    }
}

/// The statuses of a list.
fn read_statuses(heap: &Heap, values: &Vec<usize>) -> (statuses: Option<Vec<u16>>)
    ensures
        match statuses {
            Some(statuses) => statuses_of(*heap, values@) == Some(statuses@),
            None => statuses_of(*heap, values@) is None,
        },
{
    let mut statuses: Vec<u16> = Vec::new();
    let mut index: usize = 0;
    while index < values.len()
        invariant
            index <= values.len(),
            statuses_of(*heap, values@.take(index as int)) == Some(statuses@),
        decreases values.len() - index,
    {
        assert(values@.take(index + 1).drop_last() =~= values@.take(index as int));
        assert(values@.take(index + 1).last() == values@[index as int]);
        match status_value(heap, values[index]) {
            Some(status) => {
                statuses.push(status);
            },
            None => {
                proof {
                    lemma_statuses_stop(*heap, values@, (index + 1) as nat);
                }
                return None;
            },
        }
        index = index + 1;
    }
    assert(values@.take(index as int) =~= values@);
    Some(statuses)
}

/// Whether a value lists the statuses of redirects.
pub open spec fn lists_redirects(heap: Heap, value: usize) -> Check {
    match heap.elements_of(value) {
        None => Err(Failure::Kind),
        Some(elements) => match statuses_of(heap, elements) {
            None => Err(Failure::Kind),
            Some(statuses) => Ok(statuses == seq![301u16, 302u16, 303u16, 307u16, 308u16]),
        },
    }
}

/// Whether a value lists the statuses of redirects.
fn check_redirects(heap: &Heap, value: usize) -> (check: Check)
    ensures
        check == lists_redirects(*heap, value),
{
    let elements = match heap.elements(value) {
        Some(elements) => elements,
        None => {
            return Err(Failure::Kind);
        },
    };
    let statuses = match read_statuses(heap, elements) {
        Some(statuses) => statuses,
        None => {
            return Err(Failure::Kind);
        },
    };
    let same = statuses.len() == 5 && statuses[0] == 301 && statuses[1] == 302 && statuses[2] == 303
        && statuses[3] == 307 && statuses[4] == 308;
    assert(same == (statuses@ == seq![301u16, 302u16, 303u16, 307u16, 308u16])) by {
        if same {
            assert(statuses@ =~= seq![301u16, 302u16, 303u16, 307u16, 308u16]);
        }
    }
    Ok(same)
}

/// Whether an attribute is a status.
pub open spec fn status_attribute_is(heap: Heap, object: usize, name: Seq<char>, status: u16) -> Check {
    match heap.attribute_of(object, name) {
        None => Err(Failure::Attribute),
        Some(value) => match status_of(heap, value) {
            None => Err(Failure::Kind),
            Some(found) => Ok(found == status),
        },
    }
}

/// Whether an attribute is a status.
fn check_status_attribute(heap: &Heap, object: usize, name: &str, status: u16) -> (check: Check)
    ensures
        check == status_attribute_is(*heap, object, name@, status),
{
    match heap.attribute(object, name) {
        None => Err(Failure::Attribute),
        Some(value) => match status_value(heap, value) {
            None => Err(Failure::Kind),
            Some(found) => Ok(found == status),
        },
    }
}

/// Whether a value is the size in which content is read.
pub open spec fn is_chunk_size(heap: Heap, value: usize) -> Check {
    if !heap.is_exactly(value, heap.intrinsics.int) {
        Ok(false)
    } else {
        match heap.int_of(value) {
            Some(number) => if 0 <= number <= usize::MAX {
                Ok(number == 10240)
            } else {
                Err(Failure::Kind)
            },
            None => Err(Failure::Kind),
        }
    }
}

/// Whether a value is the size in which content is read.
fn check_chunk_size(heap: &Heap, value: usize) -> (check: Check)
    ensures
        check == is_chunk_size(*heap, value),
{
    if !heap.exactly(value, heap.intrinsics.int) {
        return Ok(false);
    }
    match heap.int_value(value) {
        Some(number) => if 0 <= number && number <= usize::MAX as i128 {
            Ok(number == 10240)
        } else {
            Err(Failure::Kind)
        },
        None => Err(Failure::Kind),
    }
}

/// Whether a value that the models module binds is the one that belongs there.
pub open spec fn has_provenance(heap: Heap, models: usize, global: ResponseGlobal, value: usize) -> Check {
    match global {
        ResponseGlobal::ContentChunkSize => is_chunk_size(heap, value),
        ResponseGlobal::IterSlices => is_canonical_helper(heap, value, "iter_slices"@),
        ResponseGlobal::StreamDecodeResponseUnicode => is_canonical_helper(
            heap,
            value,
            "stream_decode_response_unicode"@,
        ),
        ResponseGlobal::GuessJsonUtf => is_canonical_helper(heap, value, "guess_json_utf"@),
        ResponseGlobal::Cast => is_module_attribute(heap, value, "typing"@, "cast"@),
        ResponseGlobal::ProtocolError => is_module_attribute(
            heap,
            value,
            "urllib3.exceptions"@,
            "ProtocolError"@,
        ),
        ResponseGlobal::DecodeError => is_module_attribute(
            heap,
            value,
            "urllib3.exceptions"@,
            "DecodeError"@,
        ),
        ResponseGlobal::ReadTimeoutError => is_module_attribute(
            heap,
            value,
            "urllib3.exceptions"@,
            "ReadTimeoutError"@,
        ),
        ResponseGlobal::SslError => is_module_attribute(
            heap,
            value,
            "urllib3.exceptions"@,
            "SSLError"@,
        ),
        ResponseGlobal::ChunkedEncodingError => is_module_attribute(
            heap,
            value,
            "requests.exceptions"@,
            "ChunkedEncodingError"@,
        ),
        ResponseGlobal::ContentDecodingError => is_module_attribute(
            heap,
            value,
            "requests.exceptions"@,
            "ContentDecodingError"@,
        ),
        ResponseGlobal::ConnectionError => is_module_attribute(
            heap,
            value,
            "requests.exceptions"@,
            "ConnectionError"@,
        ),
        ResponseGlobal::RequestsSslError => is_module_attribute(
            heap,
            value,
            "requests.exceptions"@,
            "SSLError"@,
        ),
        ResponseGlobal::StreamConsumedError => is_module_attribute(
            heap,
            value,
            "requests.exceptions"@,
            "StreamConsumedError"@,
        ),
        ResponseGlobal::RequestsJsonDecodeError => is_module_attribute(
            heap,
            value,
            "requests.exceptions"@,
            "JSONDecodeError"@,
        ),
        ResponseGlobal::HttpError => is_module_attribute(
            heap,
            value,
            "requests.exceptions"@,
            "HTTPError"@,
        ),
        ResponseGlobal::Chardet => if heap.is_none_value(value) {
            Ok(true)
        } else {
            is_registered_module(heap, value)
        },
        ResponseGlobal::Complexjson => is_registered_module(heap, value),
        ResponseGlobal::JsonDecodeError => match heap.attribute_of(models, "complexjson"@) {
            None => Err(Failure::Attribute),
            Some(complexjson) => crate::retry::attribute_is(
                heap,
                complexjson,
                "JSONDecodeError"@,
                value,
            ),
        },
        ResponseGlobal::RedirectStatuses => lists_redirects(heap, value),
        ResponseGlobal::Codes => both(
            status_attribute_is(heap, value, "moved_permanently"@, 301),
            status_attribute_is(heap, value, "permanent_redirect"@, 308),
        ),
        _ => Ok(false),
    }
}

/// Whether a value that the models module binds is the one that belongs there.
pub fn global_has_canonical_provenance(
    heap: &Heap,
    models: usize,
    global: ResponseGlobal,
    value: usize,
) -> (check: Check)
    ensures
        check == has_provenance(*heap, models, global, value),
{
    match global {
        ResponseGlobal::ContentChunkSize => check_chunk_size(heap, value),
        ResponseGlobal::IterSlices => canonical_helper_is(heap, value, "iter_slices"),
        ResponseGlobal::StreamDecodeResponseUnicode => canonical_helper_is(
            heap,
            value,
            "stream_decode_response_unicode",
        ),
        ResponseGlobal::GuessJsonUtf => canonical_helper_is(heap, value, "guess_json_utf"),
        ResponseGlobal::Cast => known_module_attr_is(heap, value, "typing", "cast"),
        ResponseGlobal::ProtocolError => known_module_attr_is(
            heap,
            value,
            "urllib3.exceptions",
            "ProtocolError",
        ),
        ResponseGlobal::DecodeError => known_module_attr_is(
            heap,
            value,
            "urllib3.exceptions",
            "DecodeError",
        ),
        ResponseGlobal::ReadTimeoutError => known_module_attr_is(
            heap,
            value,
            "urllib3.exceptions",
            "ReadTimeoutError",
        ),
        ResponseGlobal::SslError => known_module_attr_is(
            heap,
            value,
            "urllib3.exceptions",
            "SSLError",
        ),
        ResponseGlobal::ChunkedEncodingError => known_module_attr_is(
            heap,
            value,
            "requests.exceptions",
            "ChunkedEncodingError",
        ),
        ResponseGlobal::ContentDecodingError => known_module_attr_is(
            heap,
            value,
            "requests.exceptions",
            "ContentDecodingError",
        ),
        ResponseGlobal::ConnectionError => known_module_attr_is(
            heap,
            value,
            "requests.exceptions",
            "ConnectionError",
        ),
        ResponseGlobal::RequestsSslError => known_module_attr_is(
            heap,
            value,
            "requests.exceptions",
            "SSLError",
        ),
        ResponseGlobal::StreamConsumedError => known_module_attr_is(
            heap,
            value,
            "requests.exceptions",
            "StreamConsumedError",
        ),
        ResponseGlobal::RequestsJsonDecodeError => known_module_attr_is(
            heap,
            value,
            "requests.exceptions",
            "JSONDecodeError",
        ),
        ResponseGlobal::HttpError => known_module_attr_is(
            heap,
            value,
            "requests.exceptions",
            "HTTPError",
        ),
        ResponseGlobal::Chardet => if heap.none_value(value) {
            Ok(true)
        } else {
            module_identity_is_current(heap, value)
        },
        ResponseGlobal::Complexjson => module_identity_is_current(heap, value),
        ResponseGlobal::JsonDecodeError => match heap.attribute(models, "complexjson") {
            None => Err(Failure::Attribute),
            Some(complexjson) => crate::retry::check_attribute_is(
                heap,
                complexjson,
                "JSONDecodeError",
                value,
            ),
        },
        ResponseGlobal::RedirectStatuses => check_redirects(heap, value),
        ResponseGlobal::Codes => {
            match check_status_attribute(heap, value, "moved_permanently", 301) {
                Ok(true) => {},
                other => {
                    return other;
                },
            }
            check_status_attribute(heap, value, "permanent_redirect", 308)
        },
        _ => Ok(false),
    }
}

/// What a name has to stand for.
#[derive(Clone, Copy, Debug, PartialEq, Eq, Structural)]
pub enum ExpectedGlobal {
    /// The module does not bind it; the built-in does.
    Missing,
    Value(usize),
    /// Nothing will do.
    Rejected,
}

/// What a name has to stand for, as the models module is first met.
pub open spec fn expected_of(heap: Heap, models: usize, namespace: usize, global: ResponseGlobal) -> Result<
    ExpectedGlobal,
    Failure,
> {
    if global.is_built_in() {
        Ok(ExpectedGlobal::Missing)
    } else if global is Cast {
        match heap.module_of("typing"@) {
            None => Err(Failure::Import),
            Some(typing) => match heap.attribute_of(typing, "cast"@) {
                None => Err(Failure::Attribute),
                Some(value) => Ok(ExpectedGlobal::Value(value)),
            },
        }
    } else {
        match heap.entry_of(namespace, global.spelled()) {
            None => Ok(ExpectedGlobal::Rejected),
            Some(current) => if has_provenance(heap, models, global, current) == Ok::<
                bool,
                Failure,
            >(true) {
                Ok(ExpectedGlobal::Value(current))
            } else {
                Ok(ExpectedGlobal::Rejected)
            },
        }
    }
}

/// What a name has to stand for, as the models module is first met.
fn expect_global(heap: &Heap, models: usize, namespace: usize, global: ResponseGlobal) -> (expected:
    Result<ExpectedGlobal, Failure>)
    ensures
        expected == expected_of(*heap, models, namespace, global),
{
    if global.built_in() {
        return Ok(ExpectedGlobal::Missing);
    }
    match global {
        ResponseGlobal::Cast => match heap.module("typing") {
            None => Err(Failure::Import),
            Some(typing) => match heap.attribute(typing, "cast") {
                None => Err(Failure::Attribute),
                Some(value) => Ok(ExpectedGlobal::Value(value)),
            },
        },
        _ => match heap.entry(namespace, global.name()) {
            None => Ok(ExpectedGlobal::Rejected),
            Some(current) => match global_has_canonical_provenance(heap, models, global, current) {
                Ok(true) => Ok(ExpectedGlobal::Value(current)),
                _ => Ok(ExpectedGlobal::Rejected),
            },
        },
    }
}

/// Why the response class cannot be remembered.
#[derive(Clone, Copy, Debug, PartialEq, Eq, Structural)]
pub enum ResponseFault {
    Failed(Failure),
    /// The source has no code for a member.
    MissingCode(ResponseMember),
    /// The class has no such member.
    MissingMember(ResponseMember),
}

impl ResponseFault {
    /// The fault in words, where it is one of the library's own.
    pub open spec fn words(self) -> Option<Seq<char>> {
        match self {
            ResponseFault::Failed(_) => None,
            ResponseFault::MissingCode(member) => Some(
                "canonical code not found for requests.models."@ + member.qualname(),
            ),
            ResponseFault::MissingMember(member) => Some("missing "@ + member.qualname()),
        }
    }

    /// The fault in words, where it is one of the library's own.
    pub fn message(&self) -> (text: Option<String>)
        ensures
            crate::retry::optional_view(text) == self.words(),
    {
        match self {
            ResponseFault::Failed(_) => None,
            ResponseFault::MissingCode(member) => {
                let mut text = String::from_str("canonical code not found for requests.models.");
                text.append(member.qualified_name());
                Some(text)
            },
            ResponseFault::MissingMember(member) => {
                let mut text = String::from_str("missing ");
                text.append(member.qualified_name());
                Some(text)
            },
        }
    }
}

/// A member as its module's source gives it, with the built-ins of the function
/// that is there.
pub open spec fn descriptor_of(heap: Heap, class: usize, member: ResponseMember) -> Result<
    CanonicalDescriptor,
    ResponseFault,
> {
    match loaded_code(heap, "requests.models"@, member.qualname()) {
        None => Err(ResponseFault::MissingCode(member)),
        Some(code) => match direct_entry_of(heap, class, member.spelled()) {
            Err(failure) => Err(ResponseFault::Failed(failure)),
            Ok(None) => Err(ResponseFault::MissingMember(member)),
            Ok(Some(current)) => match function_behind(heap, current, member.is_property()) {
                Err(failure) => Err(ResponseFault::Failed(failure)),
                Ok(function) => match heap.attribute_of(function, "__builtins__"@) {
                    None => Err(ResponseFault::Failed(Failure::Attribute)),
                    Some(builtins) => if heap.dict_of(builtins) is None {
                        Err(ResponseFault::Failed(Failure::Kind))
                    } else {
                        Ok(CanonicalDescriptor { code, builtins })
                    },
                },
            },
        },
    }
}

/// A member as its module's source gives it.
fn take_descriptor(heap: &Heap, class: usize, member: ResponseMember) -> (descriptor: Result<
    CanonicalDescriptor,
    ResponseFault,
>)
    ensures
        descriptor == descriptor_of(*heap, class, member),
{
    let code = match canonical_code(heap, "requests.models", member.qualified_name()) {
        Some(code) => code,
        None => {
            return Err(ResponseFault::MissingCode(member));
        },
    };
    let current = match raw_direct_type_entry(heap, class, member.name()) {
        Err(failure) => {
            return Err(ResponseFault::Failed(failure));
        },
        Ok(None) => {
            return Err(ResponseFault::MissingMember(member));
        },
        Ok(Some(current)) => current,
    };
    let function = match descriptor_function(heap, current, member.property()) {
        Ok(function) => function,
        Err(failure) => {
            return Err(ResponseFault::Failed(failure));
        },
    };
    match heap.attribute(function, "__builtins__") {
        None => Err(ResponseFault::Failed(Failure::Attribute)),
        Some(builtins) => if heap.dict(builtins).is_none() {
            Err(ResponseFault::Failed(Failure::Kind))
        } else {
            Ok(CanonicalDescriptor { code, builtins })
        },
    }
}

/// The response class as it was first met.
pub struct ResponseState {
    pub models: usize,
    /// The models module's name space.
    pub namespace: usize,
    pub response_type: usize,
    pub object_getattribute: usize,
    pub object_setattr: usize,
    pub descriptors: Vec<CanonicalDescriptor>,
    pub globals: Vec<ExpectedGlobal>,
    /// Every member was the source's own when it was first met.
    pub trusted_at_import: bool,
}

impl ResponseState {
    /// There is one descriptor for each member and one value for each name.
    pub open spec fn well_formed(&self) -> bool {
        self.descriptors@.len() == MEMBERS && self.globals@.len() == GLOBALS
    }

    /// A member as it was first met.
    pub open spec fn met(self, member: ResponseMember) -> CanonicalDescriptor {
        self.descriptors@[member.place() as int]
    }

    /// What a name has to stand for.
    pub open spec fn wanted(self, global: ResponseGlobal) -> ExpectedGlobal {
        self.globals@[global.place() as int]
    }
}

/// Whether every member of the class is the source's own.
pub open spec fn all_members_match(
    heap: Heap,
    class: usize,
    namespace: usize,
    state: ResponseState,
) -> bool {
    forall|member: ResponseMember|
        member_matches(heap, class, member, #[trigger] state.met(member), namespace) == Ok::<
            bool,
            Failure,
        >(true)
}

/// Whether the response class looks up and sets attributes as any object does.
pub open spec fn plain_access(heap: Heap, class: usize, getattribute: usize, setattr: usize) -> bool {
    &&& type_entry_is(heap, class, "__getattribute__"@, getattribute)
    &&& type_entry_is(heap, class, "__setattr__"@, setattr)
}

/// Whether a state is what the response class is as it is first met.
pub open spec fn is_first_met(heap: Heap, state: ResponseState) -> bool {
    &&& state.well_formed()
    &&& heap.module_of("requests.models"@) == Some(state.models)
    &&& heap.attribute_of(state.models, "__dict__"@) == Some(state.namespace)
    &&& heap.attribute_of(state.models, "Response"@) == Some(state.response_type)
    &&& is_type(heap, state.response_type)
    &&& heap.attribute_of(heap.intrinsics.object, "__getattribute__"@) == Some(
        state.object_getattribute,
    )
    &&& heap.attribute_of(heap.intrinsics.object, "__setattr__"@) == Some(state.object_setattr)
    &&& forall|member: ResponseMember|
        descriptor_of(heap, state.response_type, member) == Ok::<
            CanonicalDescriptor,
            ResponseFault,
        >(#[trigger] state.met(member))
    &&& forall|global: ResponseGlobal|
        expected_of(heap, state.models, state.namespace, global) == Ok::<ExpectedGlobal, Failure>(
            #[trigger] state.wanted(global),
        )
    &&& state.trusted_at_import == (all_members_match(
        heap,
        state.response_type,
        state.namespace,
        state,
    ) && plain_access(
        heap,
        state.response_type,
        state.object_getattribute,
        state.object_setattr,
    ))
}

/// The fault of the first member, in order, that cannot be taken down.
pub open spec fn member_fault(heap: Heap, class: usize, fault: ResponseFault) -> bool {
    exists|member: ResponseMember| #[trigger]
        descriptor_of(heap, class, member) == Err::<CanonicalDescriptor, ResponseFault>(fault)
            && forall|earlier: ResponseMember|
            earlier.place() < member.place() ==> #[trigger] descriptor_of(heap, class, earlier)
                is Ok
}

/// Whether a fault keeps the response class from being remembered.
pub open spec fn is_fault(heap: Heap, fault: ResponseFault) -> bool {
    match heap.module_of("requests.models"@) {
        None => fault == ResponseFault::Failed(Failure::Import),
        Some(models) => match heap.attribute_of(models, "Response"@) {
            None => fault == ResponseFault::Failed(Failure::Attribute),
            Some(class) => if !is_type(heap, class) {
                fault == ResponseFault::Failed(Failure::Kind)
            } else if heap.attribute_of(heap.intrinsics.object, "__getattribute__"@) is None
                || heap.attribute_of(heap.intrinsics.object, "__setattr__"@) is None {
                fault == ResponseFault::Failed(Failure::Attribute)
            } else {
                ||| member_fault(heap, class, fault)
                ||| (forall|member: ResponseMember|
                    #[trigger] descriptor_of(heap, class, member) is Ok) && (match heap.attribute_of(
                    models,
                    "__dict__"@,
                ) {
                    None => fault == ResponseFault::Failed(Failure::Attribute),
                    Some(namespace) => match expected_of(
                        heap,
                        models,
                        namespace,
                        ResponseGlobal::Cast,
                    ) {
                        Err(failure) => fault == ResponseFault::Failed(failure),
                        Ok(_) => false,
                    },
                })
            },
        },
    }
}

/// Takes down the members of the class.
fn take_descriptors(heap: &Heap, class: usize) -> (descriptors: Result<
    Vec<CanonicalDescriptor>,
    ResponseFault,
>)
    ensures
        match descriptors {
            Ok(descriptors) => {
                &&& descriptors@.len() == MEMBERS
                &&& forall|member: ResponseMember|
                    descriptor_of(*heap, class, member) == Ok::<CanonicalDescriptor, ResponseFault>(
                        #[trigger] descriptors@[member.place() as int],
                    )
            },
            Err(fault) => member_fault(*heap, class, fault),
        },
{
    let mut descriptors: Vec<CanonicalDescriptor> = Vec::new();
    let mut place: usize = 0;
    while place < MEMBERS
        invariant
            place <= MEMBERS,
            descriptors@.len() == place,
            forall|member: ResponseMember|
                #[trigger] member.place() < place ==> descriptor_of(*heap, class, member) == Ok::<
                    CanonicalDescriptor,
                    ResponseFault,
                >(descriptors@[member.place() as int]),
        decreases MEMBERS - place,
    {
        let member = ResponseMember::at_index(place);
        let ghost before = descriptors@;
        match take_descriptor(heap, class, member) {
            Ok(descriptor) => {
                descriptors.push(descriptor);
            },
            Err(fault) => {
                proof {
                    assert(descriptor_of(*heap, class, member) == Err::<
                        CanonicalDescriptor,
                        ResponseFault,
                    >(fault));
                    assert forall|earlier: ResponseMember|
                        earlier.place() < member.place() implies #[trigger] descriptor_of(
                        *heap,
                        class,
                        earlier,
                    ) is Ok by {}
                }
                return Err(fault);
            },
        }
        place = place + 1;
        assert forall|other: ResponseMember| #[trigger] other.place() < place implies descriptor_of(
            *heap,
            class,
            other,
        ) == Ok::<CanonicalDescriptor, ResponseFault>(descriptors@[other.place() as int]) by {
            if other.place() == place - 1 {
                assert(other == member);
            } else {
                assert(descriptors@[other.place() as int] == before[other.place() as int]);
            }
        }
    }
    assert forall|member: ResponseMember| descriptor_of(*heap, class, member) == Ok::<
        CanonicalDescriptor,
        ResponseFault,
    >(#[trigger] descriptors@[member.place() as int]) by {
        assert(member.place() < MEMBERS);
    }
    Ok(descriptors)
}

/// Takes down what the names have to stand for.
fn take_globals(heap: &Heap, models: usize, namespace: usize) -> (globals: Result<
    Vec<ExpectedGlobal>,
    Failure,
>)
    ensures
        match globals {
            Ok(globals) => {
                &&& globals@.len() == GLOBALS
                &&& forall|global: ResponseGlobal|
                    expected_of(*heap, models, namespace, global) == Ok::<ExpectedGlobal, Failure>(
                        #[trigger] globals@[global.place() as int],
                    )
            },
            Err(failure) => expected_of(*heap, models, namespace, ResponseGlobal::Cast) == Err::<
                ExpectedGlobal,
                Failure,
            >(failure),
        },
{
    let mut globals: Vec<ExpectedGlobal> = Vec::new();
    let mut place: usize = 0;
    while place < GLOBALS
        invariant
            place <= GLOBALS,
            globals@.len() == place,
            forall|global: ResponseGlobal|
                #[trigger] global.place() < place ==> expected_of(*heap, models, namespace, global)
                    == Ok::<ExpectedGlobal, Failure>(globals@[global.place() as int]),
        decreases GLOBALS - place,
    {
        let global = ResponseGlobal::at_index(place);
        let ghost before = globals@;
        match expect_global(heap, models, namespace, global) {
            Ok(expected) => {
                globals.push(expected);
            },
            Err(failure) => {
                assert(global is Cast);
                return Err(failure);
            },
        }
        place = place + 1;
        assert forall|other: ResponseGlobal| #[trigger] other.place() < place implies expected_of(
            *heap,
            models,
            namespace,
            other,
        ) == Ok::<ExpectedGlobal, Failure>(globals@[other.place() as int]) by {
            if other.place() == place - 1 {
                assert(other == global);
            } else {
                assert(globals@[other.place() as int] == before[other.place() as int]);
            }
        }
    }
    assert forall|global: ResponseGlobal| expected_of(*heap, models, namespace, global) == Ok::<
        ExpectedGlobal,
        Failure,
    >(#[trigger] globals@[global.place() as int]) by {
        assert(global.place() < GLOBALS);
    }
    Ok(globals)
}

/// Whether every member of the class is the source's own.
fn members_match(heap: &Heap, class: usize, namespace: usize, descriptors: &Vec<CanonicalDescriptor>) -> (
    all: bool)
    requires
        descriptors@.len() == MEMBERS,
    ensures
        all == (forall|member: ResponseMember|
            member_matches(
                *heap,
                class,
                member,
                #[trigger] descriptors@[member.place() as int],
                namespace,
            ) == Ok::<bool, Failure>(true)),
{
    let mut place: usize = 0;
    while place < MEMBERS
        invariant
            place <= MEMBERS,
            descriptors@.len() == MEMBERS,
            forall|member: ResponseMember|
                #[trigger] member.place() < place ==> member_matches(
                    *heap,
                    class,
                    member,
                    descriptors@[member.place() as int],
                    namespace,
                ) == Ok::<bool, Failure>(true),
        decreases MEMBERS - place,
    {
        let member = ResponseMember::at_index(place);
        match descriptor_matches(heap, class, member, &descriptors[place], namespace) {
            Ok(true) => {},
            _ => {
                assert(member_matches(
                    *heap,
                    class,
                    member,
                    descriptors@[member.place() as int],
                    namespace,
                ) != Ok::<bool, Failure>(true));
                return false;
            },
        }
        place = place + 1;
        assert forall|other: ResponseMember| #[trigger] other.place() < place implies member_matches(
            *heap,
            class,
            other,
            descriptors@[other.place() as int],
            namespace,
        ) == Ok::<bool, Failure>(true) by {
            if other.place() == place - 1 {
                assert(other == member);
            }
        }
    }
    assert forall|member: ResponseMember| member_matches(
        *heap,
        class,
        member,
        #[trigger] descriptors@[member.place() as int],
        namespace,
    ) == Ok::<bool, Failure>(true) by {
        assert(member.place() < MEMBERS);
    }
    true
}

/// Remembers the response class.
pub fn initialize_response_state(heap: &Heap) -> (state: Result<ResponseState, ResponseFault>)
    ensures
        match state {
            Ok(state) => is_first_met(*heap, state),
            Err(fault) => is_fault(*heap, fault),
        },
{
    let models = match heap.module("requests.models") {
        Some(models) => models,
        None => {
            return Err(ResponseFault::Failed(Failure::Import));
        },
    };
    let response_type = match heap.attribute(models, "Response") {
        Some(class) => class,
        None => {
            return Err(ResponseFault::Failed(Failure::Attribute));
        },
    };
    if !type_object(heap, response_type) {
        return Err(ResponseFault::Failed(Failure::Kind));
    }
    let (object_getattribute, object_setattr) = match (
        heap.attribute(heap.intrinsics.object, "__getattribute__"),
        heap.attribute(heap.intrinsics.object, "__setattr__"),
    ) {
        (Some(getattribute), Some(setattr)) => (getattribute, setattr),
        _ => {
            return Err(ResponseFault::Failed(Failure::Attribute));
        },
    };
    let descriptors = match take_descriptors(heap, response_type) {
        Ok(descriptors) => descriptors,
        Err(fault) => {
            return Err(fault);
        },
    };
    proof {
        assert forall|member: ResponseMember| #[trigger]
            descriptor_of(*heap, response_type, member) is Ok by {
            let taken = descriptors@[member.place() as int];
        }
    }
    let namespace = match heap.attribute(models, "__dict__") {
        Some(namespace) => namespace,
        None => {
            return Err(ResponseFault::Failed(Failure::Attribute));
        },
    };
    let globals = match take_globals(heap, models, namespace) {
        Ok(globals) => globals,
        Err(failure) => {
            return Err(ResponseFault::Failed(failure));
        },
    };
    let members = members_match(heap, response_type, namespace, &descriptors);
    let trusted_at_import = members && check_type_entry(
        heap,
        response_type,
        "__getattribute__",
        object_getattribute,
    ) && check_type_entry(heap, response_type, "__setattr__", object_setattr);
    let state = ResponseState {
        models,
        namespace,
        response_type,
        object_getattribute,
        object_setattr,
        descriptors,
        globals,
        trusted_at_import,
    };
    proof {
        assert(members == all_members_match(*heap, response_type, namespace, state)) by {
            if members {
                assert forall|member: ResponseMember| member_matches(
                    *heap,
                    response_type,
                    member,
                    #[trigger] state.met(member),
                    namespace,
                ) == Ok::<bool, Failure>(true) by {
                    assert(state.met(member) == state.descriptors@[member.place() as int]);
                }
            } else {
                let odd = choose|member: ResponseMember|
                    member_matches(
                        *heap,
                        response_type,
                        member,
                        #[trigger] state.descriptors@[member.place() as int],
                        namespace,
                    ) != Ok::<bool, Failure>(true);
                assert(state.met(odd) == state.descriptors@[odd.place() as int]);
            }
        }
        assert forall|member: ResponseMember| descriptor_of(*heap, response_type, member) == Ok::<
            CanonicalDescriptor,
            ResponseFault,
        >(#[trigger] state.met(member)) by {
            assert(state.met(member) == state.descriptors@[member.place() as int]);
        }
        assert forall|global: ResponseGlobal| expected_of(*heap, models, namespace, global) == Ok::<
            ExpectedGlobal,
            Failure,
        >(#[trigger] state.wanted(global)) by {
            assert(state.wanted(global) == state.globals@[global.place() as int]);
        }
    }
    Ok(state)
}

/// Whether a class is the response class, and as it first was.
pub open spec fn class_is_current(heap: Heap, state: ResponseState, class: usize) -> bool {
    &&& state.trusted_at_import
    &&& class == state.response_type
    &&& heap.entry_of(state.namespace, "Response"@) == Some(class)
    &&& plain_access(heap, class, state.object_getattribute, state.object_setattr)
}

/// Whether a class is the response class, and as it first was.
pub fn type_is_current(heap: &Heap, state: &ResponseState, class: usize) -> (current: bool)
    ensures
        current == class_is_current(*heap, *state, class),
{
    if !state.trusted_at_import || class != state.response_type {
        return false;
    }
    match heap.entry(state.namespace, "Response") {
        Some(found) => if found != class {
            return false;
        },
        None => {
            return false;
        },
    }
    check_type_entry(heap, class, "__getattribute__", state.object_getattribute)
        && check_type_entry(heap, class, "__setattr__", state.object_setattr)
}

/// Whether a name still stands for what it has to.
pub open spec fn global_is_current(
    heap: Heap,
    state: ResponseState,
    builtins: usize,
    global: ResponseGlobal,
) -> Check {
    let current = heap.entry_of(state.namespace, global.spelled());
    both(
        match state.wanted(global) {
            ExpectedGlobal::Missing => if current is None {
                names_intrinsic(heap, builtins, global.spelled())
            } else {
                Ok(false)
            },
            ExpectedGlobal::Value(expected) => Ok(current == Some(expected)),
            ExpectedGlobal::Rejected => Ok(false),
        },
        match current {
            Some(value) => if global.is_helper() {
                has_provenance(heap, state.models, global, value)
            } else {
                Ok(true)
            },
            None => Ok(true),
        },
    )
}

/// Whether a name still stands for what it has to.
fn check_global(heap: &Heap, state: &ResponseState, builtins: usize, global: ResponseGlobal) -> (check:
    Check)
    requires
        state.well_formed(),
    ensures
        check == global_is_current(*heap, *state, builtins, global),
{
    let current = heap.entry(state.namespace, global.name());
    match state.globals[global.index()] {
        ExpectedGlobal::Missing => {
            if current.is_some() {
                return Ok(false);
            }
            match intrinsic_builtin_name_is(heap, builtins, global.name()) {
                Ok(true) => {},
                other => {
                    return other;
                },
            }
        },
        ExpectedGlobal::Value(expected) => match current {
            Some(value) => if value != expected {
                return Ok(false);
            },
            None => {
                return Ok(false);
            },
        },
        ExpectedGlobal::Rejected => {
            return Ok(false);
        },
    }
    match current {
        Some(value) => if global.helper() {
            global_has_canonical_provenance(heap, state.models, global, value)
        } else {
            Ok(true)
        },
        None => Ok(true),
    }
}

/// Whether every name of a list still stands for what it has to.
pub open spec fn globals_current(
    heap: Heap,
    state: ResponseState,
    builtins: usize,
    globals: Seq<ResponseGlobal>,
) -> Check
    decreases globals.len(),
{
    if globals.len() == 0 {
        Ok(true)
    } else {
        both(
            global_is_current(heap, state, builtins, globals[0]),
            globals_current(heap, state, builtins, globals.drop_first()),
        )
    }
}

/// Whether every name of a list still stands for what it has to.
pub fn globals_are_current(
    heap: &Heap,
    state: &ResponseState,
    builtins: usize,
    globals: &Vec<ResponseGlobal>,
) -> (check: Check)
    requires
        state.well_formed(),
    ensures
        check == globals_current(*heap, *state, builtins, globals@),
{
    let mut index: usize = 0;
    assert(globals@.skip(0) =~= globals@);
    while index < globals.len()
        invariant
            index <= globals.len(),
            state.well_formed(),
            globals_current(*heap, *state, builtins, globals@) == globals_current(
                *heap,
                *state,
                builtins,
                globals@.skip(index as int),
            ),
        decreases globals.len() - index,
    {
        assert(globals@.skip(index as int).drop_first() =~= globals@.skip(index + 1));
        assert(globals@.skip(index as int)[0] == globals@[index as int]);
        match check_global(heap, state, builtins, globals[index]) {
            Ok(true) => {},
            other => {
                return other;
            },
        }
        index = index + 1;
    }
    Ok(true)
}

/// Whether an instance's own name space leaves a member alone.
pub open spec fn leaves_member(heap: Heap, subject: usize, member: ResponseMember) -> Check {
    if !member.is_shadowable() {
        Ok(true)
    } else {
        match heap.attribute_of(subject, "__dict__"@) {
            None => Err(Failure::Attribute),
            Some(namespace) => match heap.dict_of(namespace) {
                None => Err(Failure::Kind),
                Some(pairs) => Ok(heap.keyed(pairs, member.spelled()) is None),
            },
        }
    }
}

/// Whether an instance's own name space leaves a member alone.
fn check_leaves_member(heap: &Heap, subject: usize, member: ResponseMember) -> (check: Check)
    ensures
        check == leaves_member(*heap, subject, member),
{
    if !member.shadowable() {
        return Ok(true);
    }
    match heap.attribute(subject, "__dict__") {
        None => Err(Failure::Attribute),
        Some(namespace) => match heap.dict(namespace) {
            None => Err(Failure::Kind),
            Some(pairs) => Ok(heap.find_keyed(pairs, member.name()).is_none()),
        },
    }
}

/// Whether a member of a response can be carried out natively: the class, the
/// member and the names that its code reads are what they first were.
pub open spec fn is_exact_operation(
    heap: Heap,
    state: ResponseState,
    subject: usize,
    member: ResponseMember,
    globals: Seq<ResponseGlobal>,
) -> Check {
    both(
        Ok(heap.at(subject) is Some && class_is_current(heap, state, class_at(heap, subject))),
        both(
            leaves_member(heap, subject, member),
            both(
                member_matches(
                    heap,
                    class_at(heap, subject),
                    member,
                    state.met(member),
                    state.namespace,
                ),
                globals_current(heap, state, state.met(member).builtins, globals),
            ),
        ),
    )
}

/// Whether a member of a response can be carried out natively.
pub fn exact_operation(
    heap: &Heap,
    state: &ResponseState,
    subject: usize,
    member: ResponseMember,
    globals: &Vec<ResponseGlobal>,
) -> (check: Check)
    requires
        state.well_formed(),
    ensures
        check == is_exact_operation(*heap, *state, subject, member, globals@),
{
    let class = match heap.get(subject) {
        Some(found) => found.class,
        None => {
            return Ok(false);
        },
    };
    if !type_is_current(heap, state, class) {
        return Ok(false);
    }
    match check_leaves_member(heap, subject, member) {
        Ok(true) => {},
        other => {
            return other;
        },
    }
    let expected = state.descriptors[member.index()];
    match descriptor_matches(heap, class, member, &expected, state.namespace) {
        Ok(true) => {},
        other => {
            return other;
        },
    }
    globals_are_current(heap, state, expected.builtins, globals)
}

/// An object of any other class, and every object once a member was not the
/// source's own when it was first met, is left to Python.
pub proof fn law_foreign_responses_are_refused(
    heap: Heap,
    state: ResponseState,
    subject: usize,
    member: ResponseMember,
    globals: Seq<ResponseGlobal>,
)
    requires
        !state.trusted_at_import || !heap.is_exactly(subject, state.response_type),
    ensures
        is_exact_operation(heap, state, subject, member, globals) == Ok::<bool, Failure>(false),
{
}

/// The members of a response, and the names that they lean on, have places of
/// their own.
pub proof fn law_places_of_their_own(
    member: ResponseMember,
    other: ResponseMember,
    global: ResponseGlobal,
    second: ResponseGlobal,
)
    ensures
        member.place() == other.place() ==> member == other,
        member.place() < MEMBERS,
        global.place() == second.place() ==> global == second,
        global.place() < GLOBALS,
{
}

/// A member's full name is its name below the class.
pub proof fn law_full_names_of_members(member: ResponseMember)
    ensures
        member.qualname() == "Response."@ + member.spelled(),
{
    reveal_strlit("Response.");
    match member {
        ResponseMember::Content => {
            reveal_strlit("Response.content");
            reveal_strlit("content");
            assert("Response.content"@ =~= "Response."@ + "content"@);
        },
        ResponseMember::IterContent => {
            reveal_strlit("Response.iter_content");
            reveal_strlit("iter_content");
            assert("Response.iter_content"@ =~= "Response."@ + "iter_content"@);
        },
        ResponseMember::IterLines => {
            reveal_strlit("Response.iter_lines");
            reveal_strlit("iter_lines");
            assert("Response.iter_lines"@ =~= "Response."@ + "iter_lines"@);
        },
        ResponseMember::Text => {
            reveal_strlit("Response.text");
            reveal_strlit("text");
            assert("Response.text"@ =~= "Response."@ + "text"@);
        },
        ResponseMember::ApparentEncoding => {
            reveal_strlit("Response.apparent_encoding");
            reveal_strlit("apparent_encoding");
            assert("Response.apparent_encoding"@ =~= "Response."@ + "apparent_encoding"@);
        },
        ResponseMember::Json => {
            reveal_strlit("Response.json");
            reveal_strlit("json");
            assert("Response.json"@ =~= "Response."@ + "json"@);
        },
        ResponseMember::Repr => {
            reveal_strlit("Response.__repr__");
            reveal_strlit("__repr__");
            assert("Response.__repr__"@ =~= "Response."@ + "__repr__"@);
        },
        ResponseMember::Bool => {
            reveal_strlit("Response.__bool__");
            reveal_strlit("__bool__");
            assert("Response.__bool__"@ =~= "Response."@ + "__bool__"@);
        },
        ResponseMember::IsOk => {
            reveal_strlit("Response.ok");
            reveal_strlit("ok");
            assert("Response.ok"@ =~= "Response."@ + "ok"@);
        },
        ResponseMember::IsRedirect => {
            reveal_strlit("Response.is_redirect");
            reveal_strlit("is_redirect");
            assert("Response.is_redirect"@ =~= "Response."@ + "is_redirect"@);
        },
        ResponseMember::IsPermanentRedirect => {
            reveal_strlit("Response.is_permanent_redirect");
            reveal_strlit("is_permanent_redirect");
            assert("Response.is_permanent_redirect"@ =~= "Response."@ + "is_permanent_redirect"@);
        },
        ResponseMember::NextRequest => {
            reveal_strlit("Response.next");
            reveal_strlit("next");
            assert("Response.next"@ =~= "Response."@ + "next"@);
        },
        ResponseMember::RaiseForStatus => {
            reveal_strlit("Response.raise_for_status");
            reveal_strlit("raise_for_status");
            assert("Response.raise_for_status"@ =~= "Response."@ + "raise_for_status"@);
        },
        ResponseMember::GetState => {
            reveal_strlit("Response.__getstate__");
            reveal_strlit("__getstate__");
            assert("Response.__getstate__"@ =~= "Response."@ + "__getstate__"@);
        },
        ResponseMember::SetState => {
            reveal_strlit("Response.__setstate__");
            reveal_strlit("__setstate__");
            assert("Response.__setstate__"@ =~= "Response."@ + "__setstate__"@);
        },
        ResponseMember::Close => {
            reveal_strlit("Response.close");
            reveal_strlit("close");
            assert("Response.close"@ =~= "Response."@ + "close"@);
        },
    }
}

/// Errors and casts are those of their own modules, each under its own name.
pub proof fn law_where_names_come_from(heap: Heap, models: usize, value: usize)
    ensures
        has_provenance(heap, models, ResponseGlobal::ProtocolError, value) == is_module_attribute(
            heap,
            value,
            "urllib3.exceptions"@,
            ResponseGlobal::ProtocolError.spelled(),
        ),
        has_provenance(heap, models, ResponseGlobal::DecodeError, value) == is_module_attribute(
            heap,
            value,
            "urllib3.exceptions"@,
            ResponseGlobal::DecodeError.spelled(),
        ),
        has_provenance(heap, models, ResponseGlobal::ReadTimeoutError, value)
            == is_module_attribute(
            heap,
            value,
            "urllib3.exceptions"@,
            ResponseGlobal::ReadTimeoutError.spelled(),
        ),
        has_provenance(heap, models, ResponseGlobal::SslError, value) == is_module_attribute(
            heap,
            value,
            "urllib3.exceptions"@,
            ResponseGlobal::SslError.spelled(),
        ),
        has_provenance(heap, models, ResponseGlobal::ChunkedEncodingError, value)
            == is_module_attribute(
            heap,
            value,
            "requests.exceptions"@,
            ResponseGlobal::ChunkedEncodingError.spelled(),
        ),
        has_provenance(heap, models, ResponseGlobal::ContentDecodingError, value)
            == is_module_attribute(
            heap,
            value,
            "requests.exceptions"@,
            ResponseGlobal::ContentDecodingError.spelled(),
        ),
        has_provenance(heap, models, ResponseGlobal::ConnectionError, value)
            == is_module_attribute(
            heap,
            value,
            "requests.exceptions"@,
            ResponseGlobal::ConnectionError.spelled(),
        ),
        has_provenance(heap, models, ResponseGlobal::RequestsSslError, value)
            == is_module_attribute(
            heap,
            value,
            "requests.exceptions"@,
            ResponseGlobal::SslError.spelled(),
        ),
        has_provenance(heap, models, ResponseGlobal::StreamConsumedError, value)
            == is_module_attribute(
            heap,
            value,
            "requests.exceptions"@,
            ResponseGlobal::StreamConsumedError.spelled(),
        ),
        has_provenance(heap, models, ResponseGlobal::RequestsJsonDecodeError, value)
            == is_module_attribute(
            heap,
            value,
            "requests.exceptions"@,
            ResponseGlobal::JsonDecodeError.spelled(),
        ),
        has_provenance(heap, models, ResponseGlobal::HttpError, value) == is_module_attribute(
            heap,
            value,
            "requests.exceptions"@,
            ResponseGlobal::HttpError.spelled(),
        ),
        has_provenance(heap, models, ResponseGlobal::Cast, value) == is_module_attribute(
            heap,
            value,
            "typing"@,
            ResponseGlobal::Cast.spelled(),
        ),
        has_provenance(heap, models, ResponseGlobal::IterSlices, value) == is_canonical_helper(
            heap,
            value,
            ResponseGlobal::IterSlices.spelled(),
        ),
        has_provenance(heap, models, ResponseGlobal::StreamDecodeResponseUnicode, value)
            == is_canonical_helper(
            heap,
            value,
            ResponseGlobal::StreamDecodeResponseUnicode.spelled(),
        ),
        has_provenance(heap, models, ResponseGlobal::GuessJsonUtf, value) == is_canonical_helper(
            heap,
            value,
            ResponseGlobal::GuessJsonUtf.spelled(),
        ),
        has_provenance(heap, models, ResponseGlobal::JsonDecodeError, value) == Ok::<
            bool,
            Failure,
        >(true) <==> (heap.attribute_of(
            models,
            ResponseGlobal::Complexjson.spelled(),
        ) matches Some(complexjson) && heap.attribute_of(
            complexjson,
            ResponseGlobal::JsonDecodeError.spelled(),
        ) == Some(value)),
        is_chunk_size(heap, value) == Ok::<bool, Failure>(true) <==> heap.is_exactly(
            value,
            heap.intrinsics.int,
        ) && heap.int_of(value) == Some(10240int) && 10240 <= usize::MAX,
        forall|global: ResponseGlobal|
            global.is_built_in() ==> #[trigger] has_provenance(heap, models, global, value) == Ok::<
                bool,
                Failure,
            >(false),
{
}

/// A module is registered exactly where the interpreter's table of modules holds
/// it under the name that it says.
pub proof fn law_registered_modules(heap: Heap, value: usize)
    ensures
        is_registered_module(heap, value) == Ok::<bool, Failure>(true) <==> {
            &&& is_module(heap, value)
            &&& heap.attribute_of(value, "__name__"@) matches Some(label)
            &&& heap.text_of(label) matches Some(name)
            &&& heap.module_of("sys"@) matches Some(sys)
            &&& heap.attribute_of(sys, "modules"@) matches Some(modules)
            &&& heap.entry_of(modules, name) == Some(value)
        },
{
}

/// The redirects are these five statuses, in this order.
pub proof fn law_redirects_are_these(heap: Heap, value: usize)
    ensures
        lists_redirects(heap, value) == Ok::<bool, Failure>(true) <==> {
            &&& heap.elements_of(value) matches Some(elements)
            &&& elements.len() == 5
            &&& status_of(heap, elements[0]) == Some(301u16)
            &&& status_of(heap, elements[1]) == Some(302u16)
            &&& status_of(heap, elements[2]) == Some(303u16)
            &&& status_of(heap, elements[3]) == Some(307u16)
            &&& status_of(heap, elements[4]) == Some(308u16)
        },
{
    if let Some(elements) = heap.elements_of(value) {
        let redirects = seq![301u16, 302u16, 303u16, 307u16, 308u16];
        law_statuses_are_read_each(heap, elements, redirects);
        if elements.len() == 5 {
            assert(redirects[0] == 301 && redirects[1] == 302 && redirects[2] == 303
                && redirects[3] == 307 && redirects[4] == 308);
        }
        if let Some(statuses) = statuses_of(heap, elements) {
            if statuses == redirects {
                assert(status_of(heap, elements[0]) == Some(redirects[0]));
                assert(status_of(heap, elements[1]) == Some(redirects[1]));
                assert(status_of(heap, elements[2]) == Some(redirects[2]));
                assert(status_of(heap, elements[3]) == Some(redirects[3]));
                assert(status_of(heap, elements[4]) == Some(redirects[4]));
            }
        }
    }
}

/// Statuses are read in order, one for each value.
pub proof fn law_statuses_are_read_each(heap: Heap, values: Seq<usize>, statuses: Seq<u16>)
    ensures
        statuses_of(heap, values) == Some(statuses) <==> statuses.len() == values.len() && forall|
            index: int,
        |
            0 <= index < values.len() ==> status_of(heap, #[trigger] values[index]) == Some(
                statuses[index],
            ),
    decreases values.len(),
{
    if values.len() == 0 {
        assert(statuses.len() == 0 ==> statuses =~= Seq::empty());
    } else {
        let front = values.drop_last();
        if statuses.len() == values.len() {
            let before = statuses.drop_last();
            law_statuses_are_read_each(heap, front, before);
            assert(before.push(statuses.last()) =~= statuses);
            if statuses_of(heap, values) == Some(statuses) {
                assert(statuses_of(heap, front)->Some_0 =~= before);
                assert forall|index: int| 0 <= index < values.len() implies status_of(
                    heap,
                    #[trigger] values[index],
                ) == Some(statuses[index]) by {
                    if index < front.len() {
                        assert(front[index] == values[index]);
                    }
                }
            }
            if forall|index: int|
                0 <= index < values.len() ==> status_of(heap, #[trigger] values[index]) == Some(
                    statuses[index],
                ) {
                assert forall|index: int| 0 <= index < front.len() implies status_of(
                    heap,
                    #[trigger] front[index],
                ) == Some(before[index]) by {
                    assert(front[index] == values[index]);
                }
                assert(status_of(heap, values[values.len() - 1]) == Some(statuses.last()));
            }
        } else if let Some(found) = statuses_of(heap, values) {
            let before = statuses_of(heap, front)->Some_0;
            law_statuses_are_read_each(heap, front, before);
        }
    }
}

/// A member is the source's own exactly where the class itself holds it, and the
/// function behind it has the same code, the module's globals, the same builtins,
/// and neither a closure nor keyword defaults.
pub proof fn law_members_are_the_sources_own(
    heap: Heap,
    class: usize,
    member: ResponseMember,
    expected: CanonicalDescriptor,
    globals: usize,
)
    ensures
        member_matches(heap, class, member, expected, globals) == Ok::<bool, Failure>(true) <==> {
            &&& heap.attribute_of(class, "__dict__"@) matches Some(namespace)
            &&& heap.entry_of(namespace, member.spelled()) matches Some(current)
            &&& function_behind(heap, current, member.is_property()) matches Ok(function)
            &&& heap.attribute_of(function, "__code__"@) matches Some(code)
            &&& same_code(heap, code, expected.code)
            &&& heap.attribute_of(function, "__globals__"@) == Some(globals)
            &&& heap.attribute_of(function, "__closure__"@) matches Some(closure)
            &&& heap.is_none_value(closure)
            &&& heap.attribute_of(function, "__kwdefaults__"@) matches Some(defaults)
            &&& heap.is_none_value(defaults)
            &&& heap.attribute_of(function, "__builtins__"@) == Some(expected.builtins)
        },
        forall|descriptor: usize, property: bool| #[trigger]
            function_behind(heap, descriptor, property) matches Ok(function) ==> is_function(
                heap,
                function,
            ) && (if property {
                heap.attribute_of(descriptor, "fget"@) == Some(function)
            } else {
                function == descriptor
            }),
{
}

/// What a member is first met as comes from the source and from the class.
pub proof fn law_members_are_met_where_they_stand(
    heap: Heap,
    class: usize,
    member: ResponseMember,
    descriptor: CanonicalDescriptor,
)
    ensures
        descriptor_of(heap, class, member) == Ok::<CanonicalDescriptor, ResponseFault>(descriptor)
            <==> {
            &&& loaded_code(heap, "requests.models"@, member.qualname()) == Some(descriptor.code)
            &&& heap.attribute_of(class, "__dict__"@) matches Some(namespace)
            &&& heap.entry_of(namespace, member.spelled()) matches Some(current)
            &&& function_behind(heap, current, member.is_property()) matches Ok(function)
            &&& heap.attribute_of(function, "__builtins__"@) == Some(descriptor.builtins)
            &&& heap.dict_of(descriptor.builtins) is Some
        },
        descriptor_of(heap, class, member) == Err::<CanonicalDescriptor, ResponseFault>(
            ResponseFault::MissingCode(member),
        ) <==> loaded_code(heap, "requests.models"@, member.qualname()) is None,
{
}

/// A name that a member leans on is current exactly where it stands for what was
/// expected: the builtin that the module does not hide, or the object that was
/// met, and, for a helper, one whose code is still the source's.
pub proof fn law_names_are_current(
    heap: Heap,
    state: ResponseState,
    builtins: usize,
    global: ResponseGlobal,
)
    ensures
        global_is_current(heap, state, builtins, global) == Ok::<bool, Failure>(true) ==> {
            let current = heap.entry_of(state.namespace, global.spelled());
            match state.wanted(global) {
                ExpectedGlobal::Missing => current is None && names_intrinsic(
                    heap,
                    builtins,
                    global.spelled(),
                ) == Ok::<bool, Failure>(true),
                ExpectedGlobal::Value(expected) => current == Some(expected) && (
                global.is_helper() ==> has_provenance(heap, state.models, global, expected) == Ok::<
                    bool,
                    Failure,
                >(true)),
                ExpectedGlobal::Rejected => false,
            }
        },
        global.is_helper() <==> global is IterSlices || global is StreamDecodeResponseUnicode
            || global is GuessJsonUtf,
{
}

/// Names are current exactly where each of them is.
pub proof fn law_names_are_current_each(
    heap: Heap,
    state: ResponseState,
    builtins: usize,
    globals: Seq<ResponseGlobal>,
)
    ensures
        globals_current(heap, state, builtins, globals) == Ok::<bool, Failure>(true) <==> forall|
            index: int,
        |
            0 <= index < globals.len() ==> global_is_current(
                heap,
                state,
                builtins,
                #[trigger] globals[index],
            ) == Ok::<bool, Failure>(true),
    decreases globals.len(),
{
    if globals.len() > 0 {
        let rest = globals.drop_first();
        law_names_are_current_each(heap, state, builtins, rest);
        if forall|index: int|
            0 <= index < globals.len() ==> global_is_current(
                heap,
                state,
                builtins,
                #[trigger] globals[index],
            ) == Ok::<bool, Failure>(true) {
            assert(global_is_current(heap, state, builtins, globals[0]) == Ok::<bool, Failure>(
                true,
            ));
            assert forall|index: int| 0 <= index < rest.len() implies global_is_current(
                heap,
                state,
                builtins,
                #[trigger] rest[index],
            ) == Ok::<bool, Failure>(true) by {
                assert(rest[index] == globals[index + 1]);
            }
        }
        if globals_current(heap, state, builtins, globals) == Ok::<bool, Failure>(true) {
            assert forall|index: int| 0 <= index < globals.len() implies global_is_current(
                heap,
                state,
                builtins,
                #[trigger] globals[index],
            ) == Ok::<bool, Failure>(true) by {
                if index > 0 {
                    assert(rest[index - 1] == globals[index]);
                }
            }
        }
    }
}

/// An operation of a response is exact exactly where the response is of the class
/// that was first met and trusted, it does not hide the member itself, the member
/// is the source's own, and the names that it leans on are current.
pub proof fn law_exact_operations(
    heap: Heap,
    state: ResponseState,
    subject: usize,
    member: ResponseMember,
    globals: Seq<ResponseGlobal>,
)
    ensures
        is_exact_operation(heap, state, subject, member, globals) == Ok::<bool, Failure>(true)
            <==> {
            &&& heap.at(subject) is Some
            &&& state.trusted_at_import
            &&& class_at(heap, subject) == state.response_type
            &&& heap.entry_of(state.namespace, "Response"@) == Some(state.response_type)
            &&& type_entry_is(
                heap,
                state.response_type,
                "__getattribute__"@,
                state.object_getattribute,
            )
            &&& type_entry_is(heap, state.response_type, "__setattr__"@, state.object_setattr)
            &&& leaves_member(heap, subject, member) == Ok::<bool, Failure>(true)
            &&& member_matches(
                heap,
                state.response_type,
                member,
                state.met(member),
                state.namespace,
            ) == Ok::<bool, Failure>(true)
            &&& globals_current(heap, state, state.met(member).builtins, globals) == Ok::<
                bool,
                Failure,
            >(true)
        },
        member.is_shadowable() ==> (leaves_member(heap, subject, member) == Ok::<bool, Failure>(
            true,
        ) <==> {
            &&& heap.attribute_of(subject, "__dict__"@) matches Some(namespace)
            &&& heap.dict_of(namespace) matches Some(pairs)
            &&& heap.keyed(pairs, member.spelled()) is None
        }),
        member.is_shadowable() ==> !member.is_property(),
{
}

/// Each name that a member leans on is spelled in its own way.
pub proof fn law_names_of_response_global()
    ensures
        ResponseGlobal::ContentChunkSize.spelled() == "CONTENT_CHUNK_SIZE"@,
        ResponseGlobal::IterSlices.spelled() == "iter_slices"@,
        ResponseGlobal::StreamDecodeResponseUnicode.spelled() == "stream_decode_response_unicode"@,
        ResponseGlobal::ProtocolError.spelled() == "ProtocolError"@,
        ResponseGlobal::DecodeError.spelled() == "DecodeError"@,
        ResponseGlobal::ReadTimeoutError.spelled() == "ReadTimeoutError"@,
        ResponseGlobal::SslError.spelled() == "SSLError"@,
        ResponseGlobal::ChunkedEncodingError.spelled() == "ChunkedEncodingError"@,
        ResponseGlobal::ContentDecodingError.spelled() == "ContentDecodingError"@,
        ResponseGlobal::ConnectionError.spelled() == "ConnectionError"@,
        ResponseGlobal::RequestsSslError.spelled() == "RequestsSSLError"@,
        ResponseGlobal::StreamConsumedError.spelled() == "StreamConsumedError"@,
        ResponseGlobal::Chardet.spelled() == "chardet"@,
        ResponseGlobal::Complexjson.spelled() == "complexjson"@,
        ResponseGlobal::GuessJsonUtf.spelled() == "guess_json_utf"@,
        ResponseGlobal::JsonDecodeError.spelled() == "JSONDecodeError"@,
        ResponseGlobal::RequestsJsonDecodeError.spelled() == "RequestsJSONDecodeError"@,
        ResponseGlobal::HttpError.spelled() == "HTTPError"@,
        ResponseGlobal::RedirectStatuses.spelled() == "REDIRECT_STATI"@,
        ResponseGlobal::Codes.spelled() == "codes"@,
        ResponseGlobal::GetAttr.spelled() == "getattr"@,
        ResponseGlobal::SetAttr.spelled() == "setattr"@,
        ResponseGlobal::BoolType.spelled() == "bool"@,
        ResponseGlobal::IntType.spelled() == "int"@,
        ResponseGlobal::HasAttr.spelled() == "hasattr"@,
        ResponseGlobal::Cast.spelled() == "cast"@,
        ResponseGlobal::BytesType.spelled() == "bytes"@,
        ResponseGlobal::UnicodeDecodeError.spelled() == "UnicodeDecodeError"@,
        ResponseGlobal::StrType.spelled() == "str"@,
        ResponseGlobal::IsInstance.spelled() == "isinstance"@,
        ResponseGlobal::TypeType.spelled() == "type"@,
        ResponseGlobal::Length.spelled() == "len"@,
        ResponseGlobal::RuntimeError.spelled() == "RuntimeError"@,
        ResponseGlobal::LookupError.spelled() == "LookupError"@,
        ResponseGlobal::TypeError.spelled() == "TypeError"@,
{
}

} // verus!
