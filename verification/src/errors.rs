//! Which Python exception an error becomes.

use vstd::prelude::*;
use vstd::string::StringExecFns;

use crate::heap::{Check, Failure, Heap};
use crate::model_state::type_object;
use crate::model_state::is_type;
use crate::text::same_text;

verus! {

/// Whether a class may stand behind `except`.
pub open spec fn is_exception_class(heap: Heap, class: usize) -> bool {
    is_type(heap, class) && heap.mro_of(class).contains(heap.intrinsics.base_exception)
}

/// Whether a class is among a list.
fn lists_class(classes: &Vec<usize>, class: usize) -> (found: bool)
    ensures
        found == classes@.contains(class),
{
    let mut index: usize = 0;
    while index < classes.len()
        invariant
            index <= classes.len(),
            forall|i: int| 0 <= i < index ==> classes@[i] != class,
        decreases classes.len() - index,
    {
        if classes[index] == class {
            assert(classes@[index as int] == class);
            return true;
        }
        index = index + 1;
    }
    false
}

/// Whether one class derives from another.
pub open spec fn derives_from(heap: Heap, class: usize, base: usize) -> bool {
    heap.mro_of(class).contains(base)
}

/// Whether one class derives from another.
pub fn is_subclass(heap: &Heap, class: usize, base: usize) -> (yes: bool)
    ensures
        yes == derives_from(*heap, class, base),
{
    lists_class(&crate::known::resolution_order(heap, class), base)
}

/// Whether a class may stand behind `except`.
pub fn validate_exception_class(heap: &Heap, class: usize) -> (valid: bool)
    ensures
        valid == is_exception_class(*heap, class),
{
    type_object(heap, class) && is_subclass(heap, class, heap.intrinsics.base_exception)
}

/// Whether every class of a list may stand behind `except`.
pub open spec fn all_exception_classes(heap: Heap, classes: Seq<usize>) -> bool {
    forall|index: int|
        0 <= index < classes.len() ==> is_exception_class(heap, #[trigger] classes[index])
}

/// Whether a class derives from one of a list.
pub open spec fn derives_from_any(heap: Heap, class: usize, bases: Seq<usize>) -> bool {
    exists|index: int|
        0 <= index < bases.len() && derives_from(heap, class, #[trigger] bases[index])
}

/// Whether `except target` catches an error of a class. The target is a class
/// or one tuple of classes; anything else has no answer.
pub open spec fn catches(heap: Heap, error_class: usize, target: usize) -> Check {
    match heap.tuple_of(target) {
        Some(classes) => if all_exception_classes(heap, classes) {
            Ok(derives_from_any(heap, error_class, classes))
        } else {
            Err(Failure::Kind)
        },
        None => if is_exception_class(heap, target) {
            Ok(derives_from(heap, error_class, target))
        } else {
            Err(Failure::Kind)
        },
    }
}

/// Whether `except target` catches an error of a class.
pub fn exception_matches(heap: &Heap, error_class: usize, target: usize) -> (check: Check)
    ensures
        check == catches(*heap, error_class, target),
{
    match heap.tuple(target) {
        Some(classes) => {
            let mut index: usize = 0;
            while index < classes.len()
                invariant
                    index <= classes.len(),
                    heap.tuple_of(target) == Some(classes@),
                    forall|i: int|
                        0 <= i < index ==> is_exception_class(*heap, #[trigger] classes@[i]),
                decreases classes.len() - index,
            {
                if !validate_exception_class(heap, classes[index]) {
                    assert(!is_exception_class(*heap, classes@[index as int]));
                    return Err(Failure::Kind);
                }
                index = index + 1;
            }
            let mut index: usize = 0;
            while index < classes.len()
                invariant
                    index <= classes.len(),
                    heap.tuple_of(target) == Some(classes@),
                    all_exception_classes(*heap, classes@),
                    forall|i: int|
                        0 <= i < index ==> !derives_from(*heap, error_class, #[trigger] classes@[i]),
                decreases classes.len() - index,
            {
                if is_subclass(heap, error_class, classes[index]) {
                    assert(derives_from(*heap, error_class, classes@[index as int]));
                    return Ok(true);
                }
                index = index + 1;
            }
            Ok(false)
        },
        None => if validate_exception_class(heap, target) {
            Ok(is_subclass(heap, error_class, target))
        } else {
            Err(Failure::Kind)
        },
    }
}

/// The words of an `except` whose target is no exception class.
pub fn invalid_target_message() -> (text: String)
    ensures
        text@ == "catching classes that do not inherit from BaseException is not allowed"@,
{
    String::from_str("catching classes that do not inherit from BaseException is not allowed")
}

/// A place at which an error is turned into a Python exception.
#[derive(Clone, Copy, Debug, PartialEq, Eq, Structural)]
pub enum MappingSite {
    AdapterTransport,
    AdapterRetry,
    ResponseStream,
    ResponseJson,
    UrlPreparation,
    HeaderPreparation,
    Passthrough,
}

/// The kind of a native error.
#[derive(Clone, Copy, Debug, PartialEq, Eq, Structural)]
pub enum ErrorKind {
    ConnectTimeout,
    ReadTimeout,
    Proxy,
    Tls,
    Handshake,
    InvalidUrl,
    MissingSchema,
    InvalidHeader,
    Retry,
    Connection,
    Connect,
    Dns,
    Send,
    ResponseBody,
    ChunkedEncoding,
    ContentDecoding,
    Body,
}

/// An exception class of `requests`.
#[derive(Clone, Copy, Debug, PartialEq, Eq, Structural)]
pub enum TargetClass {
    ConnectTimeout,
    ReadTimeout,
    ProxyError,
    SslError,
    InvalidUrl,
    MissingSchema,
    InvalidHeader,
    RetryError,
    ConnectionError,
}

impl TargetClass {
    /// The class's Python name.
    pub open spec fn spelled(self) -> Seq<char> {
        match self {
            TargetClass::ConnectTimeout => "ConnectTimeout"@,
            TargetClass::ReadTimeout => "ReadTimeout"@,
            TargetClass::ProxyError => "ProxyError"@,
            TargetClass::SslError => "SSLError"@,
            TargetClass::InvalidUrl => "InvalidURL"@,
            TargetClass::MissingSchema => "MissingSchema"@,
            TargetClass::InvalidHeader => "InvalidHeader"@,
            TargetClass::RetryError => "RetryError"@,
            TargetClass::ConnectionError => "ConnectionError"@,
        }
    }

    /// The class's Python name.
    pub fn name(&self) -> (name: &'static str)
        ensures
            name@ == self.spelled(),
    {
        match self {
            TargetClass::ConnectTimeout => "ConnectTimeout",
            TargetClass::ReadTimeout => "ReadTimeout",
            TargetClass::ProxyError => "ProxyError",
            TargetClass::SslError => "SSLError",
            TargetClass::InvalidUrl => "InvalidURL",
            TargetClass::MissingSchema => "MissingSchema",
            TargetClass::InvalidHeader => "InvalidHeader",
            TargetClass::RetryError => "RetryError",
            TargetClass::ConnectionError => "ConnectionError",
        }
    }
}

/// The class that a native error becomes at a site; none where the site takes
/// Python errors only.
pub open spec fn target_of(site: MappingSite, kind: ErrorKind) -> Option<TargetClass> {
    match site {
        MappingSite::AdapterTransport => Some(
            match kind {
                ErrorKind::ConnectTimeout => TargetClass::ConnectTimeout,
                ErrorKind::ReadTimeout => TargetClass::ReadTimeout,
                ErrorKind::Proxy => TargetClass::ProxyError,
                ErrorKind::Tls => TargetClass::SslError,
                ErrorKind::Handshake => TargetClass::SslError,
                ErrorKind::InvalidUrl => TargetClass::InvalidUrl,
                ErrorKind::MissingSchema => TargetClass::InvalidUrl,
                _ => TargetClass::ConnectionError,
            },
        ),
        MappingSite::AdapterRetry => Some(TargetClass::RetryError),
        MappingSite::UrlPreparation => Some(
            if kind is MissingSchema {
                TargetClass::MissingSchema
            } else {
                TargetClass::InvalidUrl
            },
        ),
        MappingSite::HeaderPreparation => Some(TargetClass::InvalidHeader),
        _ => None,
    }
}

/// The class that a native error becomes at a site.
pub fn map_typed_message(site: MappingSite, kind: ErrorKind) -> (target: Option<TargetClass>)
    ensures
        target == target_of(site, kind),
{
    match site {
        MappingSite::AdapterTransport => Some(
            match kind {
                ErrorKind::ConnectTimeout => TargetClass::ConnectTimeout,
                ErrorKind::ReadTimeout => TargetClass::ReadTimeout,
                ErrorKind::Proxy => TargetClass::ProxyError,
                ErrorKind::Tls => TargetClass::SslError,
                ErrorKind::Handshake => TargetClass::SslError,
                ErrorKind::InvalidUrl => TargetClass::InvalidUrl,
                ErrorKind::MissingSchema => TargetClass::InvalidUrl,
                _ => TargetClass::ConnectionError,
            },
        ),
        MappingSite::AdapterRetry => Some(TargetClass::RetryError),
        MappingSite::UrlPreparation => match kind {
            ErrorKind::MissingSchema => Some(TargetClass::MissingSchema),
            _ => Some(TargetClass::InvalidUrl),
        },
        MappingSite::HeaderPreparation => Some(TargetClass::InvalidHeader),
        _ => None,
    }
}

/// What is raised for a Python error.
#[derive(Clone, Copy, Debug, PartialEq, Eq, Structural)]
pub enum Mapped {
    /// The error itself.
    Original,
    /// An instance of this class made from the error, with it as context.
    Wrapped(usize),
    /// A `NameError` on this name, with the error as context.
    Undefined(MappedName),
    /// A `TypeError` on an invalid `except` target, with the error as context.
    InvalidTarget,
    /// An `AttributeError` on a part of the error, with it as context.
    MissingPart,
    /// A `ValueError`: the site takes no Python error.
    Unsupported,
}

/// A global that the mapping reads.
#[derive(Clone, Copy, Debug, PartialEq, Eq, Structural)]
pub enum MappedName {
    ProtocolError,
    ChunkedEncodingError,
    DecodeError,
    ContentDecodingError,
    ReadTimeoutError,
    ConnectionError,
    SslError,
    RequestsSslError,
    JsonDecodeError,
    RequestsJsonDecodeError,
}

impl MappedName {
    /// The Python name.
    pub open spec fn spelled(self) -> Seq<char> {
        match self {
            MappedName::ProtocolError => "ProtocolError"@,
            MappedName::ChunkedEncodingError => "ChunkedEncodingError"@,
            MappedName::DecodeError => "DecodeError"@,
            MappedName::ContentDecodingError => "ContentDecodingError"@,
            MappedName::ReadTimeoutError => "ReadTimeoutError"@,
            MappedName::ConnectionError => "ConnectionError"@,
            MappedName::SslError => "SSLError"@,
            MappedName::RequestsSslError => "RequestsSSLError"@,
            MappedName::JsonDecodeError => "JSONDecodeError"@,
            MappedName::RequestsJsonDecodeError => "RequestsJSONDecodeError"@,
        }
    }

    /// The Python name.
    pub fn name(&self) -> (name: &'static str)
        ensures
            name@ == self.spelled(),
    {
        match self {
            MappedName::ProtocolError => "ProtocolError",
            MappedName::ChunkedEncodingError => "ChunkedEncodingError",
            MappedName::DecodeError => "DecodeError",
            MappedName::ContentDecodingError => "ContentDecodingError",
            MappedName::ReadTimeoutError => "ReadTimeoutError",
            MappedName::ConnectionError => "ConnectionError",
            MappedName::SslError => "SSLError",
            MappedName::RequestsSslError => "RequestsSSLError",
            MappedName::JsonDecodeError => "JSONDecodeError",
            MappedName::RequestsJsonDecodeError => "RequestsJSONDecodeError",
        }
    }

    /// The message of the `NameError` on this name.
    pub fn undefined_message(&self) -> (text: String)
        ensures
            text@ == "name '"@ + self.spelled() + "' is not defined"@,
    {
        let mut text = String::from_str("name '");
        text.append(self.name());
        text.append("' is not defined");
        text
    }
}

/// The errors of a response stream that are wrapped, in order, with the class
/// that wraps them.
pub open spec fn stream_mappings() -> Seq<(MappedName, MappedName)> {
    seq![
        (MappedName::ProtocolError, MappedName::ChunkedEncodingError),
        (MappedName::DecodeError, MappedName::ContentDecodingError),
        (MappedName::ReadTimeoutError, MappedName::ConnectionError),
        (MappedName::SslError, MappedName::RequestsSslError),
    ]
}

/// What is raised for an error of a response stream, from the mapping `index`
/// on: the first that catches it decides.
pub open spec fn stream_mapped(heap: Heap, globals: usize, error_class: usize, index: nat) -> Mapped
    decreases 4 - index,
{
    if index >= 4 {
        Mapped::Original
    } else {
        let (source_name, target_name) = stream_mappings()[index as int];
        match heap.entry_of(globals, source_name.spelled()) {
            None => Mapped::Undefined(source_name),
            Some(source) => match catches(heap, error_class, source) {
                Ok(false) => stream_mapped(heap, globals, error_class, index + 1),
                Ok(true) => match heap.entry_of(globals, target_name.spelled()) {
                    None => Mapped::Undefined(target_name),
                    Some(target) => Mapped::Wrapped(target),
                },
                Err(_) => Mapped::InvalidTarget,
            },
        }
    }
}

/// One of the errors of a response stream that are wrapped.
fn stream_mapping(index: usize) -> (names: (MappedName, MappedName))
    requires
        index < 4,
    ensures
        names == stream_mappings()[index as int],
{
    if index == 0 {
        (MappedName::ProtocolError, MappedName::ChunkedEncodingError)
    } else if index == 1 {
        (MappedName::DecodeError, MappedName::ContentDecodingError)
    } else if index == 2 {
        (MappedName::ReadTimeoutError, MappedName::ConnectionError)
    } else {
        (MappedName::SslError, MappedName::RequestsSslError)
    }
}

/// What is raised for an error of a response stream.
pub fn map_stream_error(heap: &Heap, globals: usize, error_class: usize) -> (mapped: Mapped)
    ensures
        mapped == stream_mapped(*heap, globals, error_class, 0),
{
    let mut index: usize = 0;
    while index < 4
        invariant
            index <= 4,
            stream_mapped(*heap, globals, error_class, 0) == stream_mapped(
                *heap,
                globals,
                error_class,
                index as nat,
            ),
        decreases 4 - index,
    {
        let (source_name, target_name) = stream_mapping(index);
        let source = match heap.entry(globals, source_name.name()) {
            None => {
                return Mapped::Undefined(source_name);
            },
            Some(source) => source,
        };
        match exception_matches(heap, error_class, source) {
            Ok(false) => {},
            Ok(true) => {
                return match heap.entry(globals, target_name.name()) {
                    None => Mapped::Undefined(target_name),
                    Some(target) => Mapped::Wrapped(target),
                };
            },
            Err(_) => {
                return Mapped::InvalidTarget;
            },
        }
        index = index + 1;
    }
    Mapped::Original
}

/// What is raised for an error of a JSON decoder.
pub open spec fn json_mapped(
    heap: Heap,
    globals: usize,
    error: usize,
    error_class: usize,
) -> Mapped {
    match heap.entry_of(globals, "JSONDecodeError"@) {
        None => Mapped::Undefined(MappedName::JsonDecodeError),
        Some(source) => match catches(heap, error_class, source) {
            Err(_) => Mapped::InvalidTarget,
            Ok(false) => Mapped::Original,
            Ok(true) => match heap.entry_of(globals, "RequestsJSONDecodeError"@) {
                None => Mapped::Undefined(MappedName::RequestsJsonDecodeError),
                Some(target) => if heap.attribute_of(error, "msg"@) is Some && heap.attribute_of(
                    error,
                    "doc"@,
                ) is Some && heap.attribute_of(error, "pos"@) is Some {
                    Mapped::Wrapped(target)
                } else {
                    Mapped::MissingPart
                },
            },
        },
    }
}

/// What is raised for an error of a JSON decoder.
pub fn map_json_error(heap: &Heap, globals: usize, error: usize, error_class: usize) -> (mapped:
    Mapped)
    ensures
        mapped == json_mapped(*heap, globals, error, error_class),
{
    let source = match heap.entry(globals, "JSONDecodeError") {
        None => {
            return Mapped::Undefined(MappedName::JsonDecodeError);
        },
        Some(source) => source,
    };
    match exception_matches(heap, error_class, source) {
        Err(_) => {
            return Mapped::InvalidTarget;
        },
        Ok(false) => {
            return Mapped::Original;
        },
        Ok(true) => {},
    }
    match heap.entry(globals, "RequestsJSONDecodeError") {
        None => Mapped::Undefined(MappedName::RequestsJsonDecodeError),
        Some(target) => if heap.attribute(error, "msg").is_some() && heap.attribute(
            error,
            "doc",
        ).is_some() && heap.attribute(error, "pos").is_some() {
            Mapped::Wrapped(target)
        } else {
            Mapped::MissingPart
        },
    }
}

/// What is raised for a Python error at a site.
pub fn map_original_error(
    heap: &Heap,
    globals: usize,
    site: MappingSite,
    error: usize,
    error_class: usize,
) -> (mapped: Mapped)
    ensures
        mapped == (match site {
            MappingSite::ResponseStream => stream_mapped(*heap, globals, error_class, 0),
            MappingSite::ResponseJson => json_mapped(*heap, globals, error, error_class),
            MappingSite::Passthrough => Mapped::Original,
            _ => Mapped::Unsupported,
        }),
{
    match site {
        MappingSite::ResponseStream => map_stream_error(heap, globals, error_class),
        MappingSite::ResponseJson => map_json_error(heap, globals, error, error_class),
        MappingSite::Passthrough => Mapped::Original,
        _ => Mapped::Unsupported,
    }
}

/// An error that no mapping catches goes on unchanged.
pub proof fn law_uncaught_error_goes_on(heap: Heap, globals: usize, error_class: usize)
    requires
        forall|index: int|
            0 <= index < 4 ==> (heap.entry_of(
                globals,
                (#[trigger] stream_mappings()[index]).0.spelled(),
            ) matches Some(source) && catches(heap, error_class, source) == Ok::<bool, Failure>(
                false,
            )),
    ensures
        stream_mapped(heap, globals, error_class, 0) == Mapped::Original,
{
    assert(stream_mappings()[0].0 is ProtocolError);
    assert(stream_mappings()[1].0 is DecodeError);
    assert(stream_mappings()[2].0 is ReadTimeoutError);
    assert(stream_mappings()[3].0 is SslError);
    reveal_with_fuel(stream_mapped, 5);
}

/// The `urllib3` exception that a native response error stands for.
#[derive(Clone, Copy, Debug, PartialEq, Eq, Structural)]
pub enum CanonicalResponseError {
    /// `DecodeError` with the error's message.
    Decode,
    /// `ReadTimeoutError` of the pool, from a `TimeoutError`.
    ReadTimeout { explicit_cause: bool },
    /// `SSLError` with the error's message.
    Ssl,
    /// `ProtocolError` from an `IncompleteRead` of these counts.
    Incomplete { received: u64, remaining: u64, explicit_cause: bool },
    /// `ProtocolError` with the error's message.
    Protocol,
}

/// The `urllib3` exception that a native response error stands for. Version 2
/// raises it from its source; version 1.26 only in its context.
pub fn canonical_response_error(kind: ErrorKind, incomplete: Option<(u64, u64)>, v2: bool) -> (error:
    CanonicalResponseError)
    ensures
        error == (match kind {
            ErrorKind::ContentDecoding => CanonicalResponseError::Decode,
            ErrorKind::ReadTimeout => CanonicalResponseError::ReadTimeout { explicit_cause: v2 },
            ErrorKind::Tls => CanonicalResponseError::Ssl,
            ErrorKind::Handshake => CanonicalResponseError::Ssl,
            _ => match incomplete {
                Some((received, remaining)) => CanonicalResponseError::Incomplete {
                    received,
                    remaining,
                    explicit_cause: v2,
                },
                None => CanonicalResponseError::Protocol,
            },
        }),
{
    match kind {
        ErrorKind::ContentDecoding => CanonicalResponseError::Decode,
        ErrorKind::ReadTimeout => CanonicalResponseError::ReadTimeout { explicit_cause: v2 },
        ErrorKind::Tls => CanonicalResponseError::Ssl,
        ErrorKind::Handshake => CanonicalResponseError::Ssl,
        _ => match incomplete {
            Some((received, remaining)) => CanonicalResponseError::Incomplete {
                received,
                remaining,
                explicit_cause: v2,
            },
            None => CanonicalResponseError::Protocol,
        },
    }
}

/// Whether a text begins with another.
pub fn begins_with(text: &str, prefix: &str) -> (yes: bool)
    ensures
        yes == prefix@.is_prefix_of(text@),
{
    let chars = crate::text::chars_of(text);
    let wanted = crate::text::chars_of(prefix);
    if wanted.len() > chars.len() {
        return false;
    }
    let mut index: usize = 0;
    while index < wanted.len()
        invariant
            index <= wanted.len() <= chars.len(),
            chars@ == text@,
            wanted@ == prefix@,
            forall|i: int| 0 <= i < index ==> wanted@[i] == chars@[i],
        decreases wanted.len() - index,
    {
        if wanted[index] != chars[index] {
            assert(wanted@[index as int] != chars@.subrange(0, wanted@.len() as int)[index as int]);
            return false;
        }
        index = index + 1;
    }
    assert(wanted@ =~= chars@.subrange(0, wanted@.len() as int));
    true
}

/// Whether a version of `urllib3` is not of the 1.26 line.
pub fn urllib3_v2(version: &str) -> (v2: bool)
    ensures
        v2 == !"1.26."@.is_prefix_of(version@),
{
    !begins_with(version, "1.26.")
}

/// The message of a body that could not be decoded.
pub fn decoder_error_message(encoding: &str) -> (text: String)
    ensures
        text@ == "Received response with content-encoding: "@ + encoding@
            + ", but failed to decode it."@,
{
    let mut text = String::from_str("Received response with content-encoding: ");
    text.append(encoding);
    text.append(", but failed to decode it.");
    text
}

/// What is raised for an error of a content decoder.
#[derive(Clone, Copy, Debug, PartialEq, Eq, Structural)]
pub enum DecoderMapped {
    /// The error itself: it is none that decoders raise.
    Original,
    /// A `DecodeError`, itself mapped as an error of a response stream.
    Decode { explicit_cause: bool },
    /// A `TypeError` on an invalid `except` target.
    InvalidTarget,
}

/// What is raised for an error of a content decoder, whose error classes are
/// `classes`.
pub fn map_decoder_error(heap: &Heap, error_class: usize, classes: usize, v2: bool) -> (mapped:
    DecoderMapped)
    ensures
        mapped == (match catches(*heap, error_class, classes) {
            Ok(true) => DecoderMapped::Decode { explicit_cause: v2 },
            Ok(false) => DecoderMapped::Original,
            Err(_) => DecoderMapped::InvalidTarget,
        }),
{
    match exception_matches(heap, error_class, classes) {
        Ok(true) => DecoderMapped::Decode { explicit_cause: v2 },
        Ok(false) => DecoderMapped::Original,
        Err(_) => DecoderMapped::InvalidTarget,
    }
}

/// The error kind of a name; a missing name stands for a connection error.
pub open spec fn kind_named(name: Option<Seq<char>>) -> Option<ErrorKind> {
    match name {
        None => Some(ErrorKind::Connection),
        Some(name) => if name == "connect_timeout"@ {
            Some(ErrorKind::ConnectTimeout)
        } else if name == "read_timeout"@ {
            Some(ErrorKind::ReadTimeout)
        } else if name == "proxy"@ {
            Some(ErrorKind::Proxy)
        } else if name == "tls"@ {
            Some(ErrorKind::Tls)
        } else if name == "handshake"@ {
            Some(ErrorKind::Handshake)
        } else if name == "invalid_url"@ {
            Some(ErrorKind::InvalidUrl)
        } else if name == "missing_schema"@ {
            Some(ErrorKind::MissingSchema)
        } else if name == "invalid_header"@ {
            Some(ErrorKind::InvalidHeader)
        } else if name == "retry_exhausted"@ {
            Some(ErrorKind::Retry)
        } else if name == "connection"@ {
            Some(ErrorKind::Connection)
        } else {
            None
        },
    }
}

/// The error kind of a name, or the message for an unknown one.
pub fn trial_kind(name: Option<&str>) -> (kind: Result<ErrorKind, String>)
    ensures
        match kind {
            Ok(kind) => kind_named(
                match name {
                    Some(name) => Some(name@),
                    None => None,
                },
            ) == Some(kind),
            Err(message) => name matches Some(name) && kind_named(Some(name@)) is None && message@
                == "unknown error mapping kind: "@ + name@,
        },
{
    match name {
        None => Ok(ErrorKind::Connection),
        Some(name) => if same_text(name, "connect_timeout") {
            Ok(ErrorKind::ConnectTimeout)
        } else if same_text(name, "read_timeout") {
            Ok(ErrorKind::ReadTimeout)
        } else if same_text(name, "proxy") {
            Ok(ErrorKind::Proxy)
        } else if same_text(name, "tls") {
            Ok(ErrorKind::Tls)
        } else if same_text(name, "handshake") {
            Ok(ErrorKind::Handshake)
        } else if same_text(name, "invalid_url") {
            Ok(ErrorKind::InvalidUrl)
        } else if same_text(name, "missing_schema") {
            Ok(ErrorKind::MissingSchema)
        } else if same_text(name, "invalid_header") {
            Ok(ErrorKind::InvalidHeader)
        } else if same_text(name, "retry_exhausted") {
            Ok(ErrorKind::Retry)
        } else if same_text(name, "connection") {
            Ok(ErrorKind::Connection)
        } else {
            Err(String::from_str("unknown error mapping kind: ").concat(name))
        },
    }
}

/// The mapping site of a name.
pub open spec fn site_named(name: Seq<char>) -> Option<MappingSite> {
    if name == "adapter_transport"@ {
        Some(MappingSite::AdapterTransport)
    } else if name == "adapter_retry"@ {
        Some(MappingSite::AdapterRetry)
    } else if name == "response_stream"@ {
        Some(MappingSite::ResponseStream)
    } else if name == "response_json"@ {
        Some(MappingSite::ResponseJson)
    } else if name == "url"@ {
        Some(MappingSite::UrlPreparation)
    } else if name == "header"@ {
        Some(MappingSite::HeaderPreparation)
    } else if name == "passthrough"@ {
        Some(MappingSite::Passthrough)
    } else {
        None
    }
}

/// The mapping site of a name, or the message for an unknown one.
pub fn trial_site(name: &str) -> (site: Result<MappingSite, String>)
    ensures
        match site {
            Ok(site) => site_named(name@) == Some(site),
            Err(message) => site_named(name@) is None && message@
                == "unknown error mapping site: "@ + name@,
        },
{
    if same_text(name, "adapter_transport") {
        Ok(MappingSite::AdapterTransport)
    } else if same_text(name, "adapter_retry") {
        Ok(MappingSite::AdapterRetry)
    } else if same_text(name, "response_stream") {
        Ok(MappingSite::ResponseStream)
    } else if same_text(name, "response_json") {
        Ok(MappingSite::ResponseJson)
    } else if same_text(name, "url") {
        Ok(MappingSite::UrlPreparation)
    } else if same_text(name, "header") {
        Ok(MappingSite::HeaderPreparation)
    } else if same_text(name, "passthrough") {
        Ok(MappingSite::Passthrough)
    } else {
        Err(String::from_str("unknown error mapping site: ").concat(name))
    }
}

/// Whether an error of a class is caught, or is not, by the class that a global
/// holds.
pub open spec fn name_catches(
    heap: Heap,
    globals: usize,
    error_class: usize,
    name: Seq<char>,
    caught: bool,
) -> bool {
    heap.entry_of(globals, name) matches Some(source) && catches(heap, error_class, source) == Ok::<
        bool,
        Failure,
    >(caught)
}

/// An error of a response stream is wrapped by the class that belongs to the
/// first of four classes that catches it: a broken protocol becomes a broken
/// chunk, an error of decoding one of the content, a timeout one of the
/// connection, and one of TLS the same of `requests`.
pub proof fn law_the_first_catching_class_wraps(
    heap: Heap,
    globals: usize,
    error_class: usize,
    target: usize,
)
    ensures
        name_catches(heap, globals, error_class, "ProtocolError"@, true) && heap.entry_of(
            globals,
            "ChunkedEncodingError"@,
        ) == Some(target) ==> stream_mapped(heap, globals, error_class, 0) == Mapped::Wrapped(
            target,
        ),
        name_catches(heap, globals, error_class, "ProtocolError"@, false) && name_catches(
            heap,
            globals,
            error_class,
            "DecodeError"@,
            true,
        ) && heap.entry_of(globals, "ContentDecodingError"@) == Some(target) ==> stream_mapped(
            heap,
            globals,
            error_class,
            0,
        ) == Mapped::Wrapped(target),
        name_catches(heap, globals, error_class, "ProtocolError"@, false) && name_catches(
            heap,
            globals,
            error_class,
            "DecodeError"@,
            false,
        ) && name_catches(heap, globals, error_class, "ReadTimeoutError"@, true) && heap.entry_of(
            globals,
            "ConnectionError"@,
        ) == Some(target) ==> stream_mapped(heap, globals, error_class, 0) == Mapped::Wrapped(
            target,
        ),
        name_catches(heap, globals, error_class, "ProtocolError"@, false) && name_catches(
            heap,
            globals,
            error_class,
            "DecodeError"@,
            false,
        ) && name_catches(heap, globals, error_class, "ReadTimeoutError"@, false) && name_catches(
            heap,
            globals,
            error_class,
            "SSLError"@,
            true,
        ) && heap.entry_of(globals, "RequestsSSLError"@) == Some(target) ==> stream_mapped(
            heap,
            globals,
            error_class,
            0,
        ) == Mapped::Wrapped(target),
        stream_mapped(heap, globals, error_class, 0) == Mapped::Original <==> name_catches(
            heap,
            globals,
            error_class,
            "ProtocolError"@,
            false,
        ) && name_catches(heap, globals, error_class, "DecodeError"@, false) && name_catches(
            heap,
            globals,
            error_class,
            "ReadTimeoutError"@,
            false,
        ) && name_catches(heap, globals, error_class, "SSLError"@, false),
{
    reveal_with_fuel(stream_mapped, 5);
}

/// A name that Python's module lost is told by its own name, and only that one.
pub proof fn law_missing_names_are_told(heap: Heap, globals: usize, error_class: usize, error: usize)
    ensures
        stream_mapped(heap, globals, error_class, 0) matches Mapped::Undefined(name)
            ==> heap.entry_of(globals, name.spelled()) is None,
        json_mapped(heap, globals, error, error_class) matches Mapped::Undefined(name)
            ==> heap.entry_of(globals, name.spelled()) is None,
        heap.entry_of(globals, "ProtocolError"@) is None ==> stream_mapped(
            heap,
            globals,
            error_class,
            0,
        ) == Mapped::Undefined(MappedName::ProtocolError),
        heap.entry_of(globals, "JSONDecodeError"@) is None ==> json_mapped(
            heap,
            globals,
            error,
            error_class,
        ) == Mapped::Undefined(MappedName::JsonDecodeError),
{
    reveal_with_fuel(stream_mapped, 5);
}

/// An error of a JSON decoder is wrapped exactly where the decoder's class
/// catches it and it has a message, a document and a position. One that is not
/// caught goes on.
pub proof fn law_json_errors_need_their_parts(
    heap: Heap,
    globals: usize,
    error: usize,
    error_class: usize,
    target: usize,
)
    ensures
        json_mapped(heap, globals, error, error_class) == Mapped::Wrapped(target) <==> {
            &&& name_catches(heap, globals, error_class, "JSONDecodeError"@, true)
            &&& heap.entry_of(globals, "RequestsJSONDecodeError"@) == Some(target)
            &&& heap.attribute_of(error, "msg"@) is Some
            &&& heap.attribute_of(error, "doc"@) is Some
            &&& heap.attribute_of(error, "pos"@) is Some
        },
        json_mapped(heap, globals, error, error_class) == Mapped::Original <==> name_catches(
            heap,
            globals,
            error_class,
            "JSONDecodeError"@,
            false,
        ),
{
}

/// `except` catches an error where one of its classes is among those that the
/// error's class derives from, and it has no answer where one of them is no
/// exception class.
pub proof fn law_except_catches_derived_classes(heap: Heap, error_class: usize, target: usize)
    ensures
        heap.tuple_of(target) is None && is_type(heap, target) && heap.mro_of(target).contains(
            heap.intrinsics.base_exception,
        ) ==> catches(heap, error_class, target) == Ok::<bool, Failure>(
            heap.mro_of(error_class).contains(target),
        ),
        heap.tuple_of(target) matches Some(classes) ==> {
            &&& catches(heap, error_class, target) == Ok::<bool, Failure>(true) ==> exists|
                index: int,
            |
                0 <= index < classes.len() && heap.mro_of(error_class).contains(
                    #[trigger] classes[index],
                )
            &&& catches(heap, error_class, target) == Ok::<bool, Failure>(false) ==> forall|
                index: int,
            |
                0 <= index < classes.len() ==> !heap.mro_of(error_class).contains(
                    #[trigger] classes[index],
                )
            &&& catches(heap, error_class, target) is Err <==> exists|index: int|
                0 <= index < classes.len() && !(is_type(heap, #[trigger] classes[index])
                    && heap.mro_of(classes[index]).contains(heap.intrinsics.base_exception))
        },
{
    if let Some(classes) = heap.tuple_of(target) {
        if catches(heap, error_class, target) == Ok::<bool, Failure>(false) {
            assert forall|index: int| 0 <= index < classes.len() implies !heap.mro_of(
                error_class,
            ).contains(#[trigger] classes[index]) by {
                assert(!derives_from(heap, error_class, classes[index]));
            }
        }
        if catches(heap, error_class, target) == Ok::<bool, Failure>(true) {
            let index = choose|index: int|
                0 <= index < classes.len() && derives_from(
                    heap,
                    error_class,
                    #[trigger] classes[index],
                );
            assert(heap.mro_of(error_class).contains(classes[index]));
        }
    }
}

/// Each kind of transport error keeps its class: timeouts, proxies, TLS and bad
/// URLs have their own, and all else is an error of the connection. A prepared
/// URL tells a missing scheme apart; headers and exhausted tries have one class.
/// The other sites take no native error.
pub proof fn law_transport_errors_keep_their_class(kind: ErrorKind)
    ensures
        target_of(MappingSite::AdapterTransport, kind) is Some,
        target_of(MappingSite::AdapterTransport, kind) == Some(TargetClass::ConnectTimeout)
            <==> kind is ConnectTimeout,
        target_of(MappingSite::AdapterTransport, kind) == Some(TargetClass::ReadTimeout) <==> kind
            is ReadTimeout,
        target_of(MappingSite::AdapterTransport, kind) == Some(TargetClass::ProxyError) <==> kind
            is Proxy,
        target_of(MappingSite::AdapterTransport, kind) == Some(TargetClass::SslError) <==> kind
            is Tls || kind is Handshake,
        target_of(MappingSite::AdapterTransport, kind) == Some(TargetClass::InvalidUrl) <==> kind
            is InvalidUrl || kind is MissingSchema,
        target_of(MappingSite::AdapterTransport, kind) == Some(TargetClass::ConnectionError)
            <==> !(kind is ConnectTimeout || kind is ReadTimeout || kind is Proxy || kind is Tls
            || kind is Handshake || kind is InvalidUrl || kind is MissingSchema),
        target_of(MappingSite::UrlPreparation, kind) == Some(TargetClass::MissingSchema)
            <==> kind is MissingSchema,
        target_of(MappingSite::UrlPreparation, kind) == Some(TargetClass::InvalidUrl) <==> !(kind
            is MissingSchema),
        target_of(MappingSite::HeaderPreparation, kind) == Some(TargetClass::InvalidHeader),
        target_of(MappingSite::AdapterRetry, kind) == Some(TargetClass::RetryError),
        target_of(MappingSite::ResponseStream, kind) is None,
        target_of(MappingSite::ResponseJson, kind) is None,
        target_of(MappingSite::Passthrough, kind) is None,
{
}

/// Each class is raised under its own name: no two share one.
pub proof fn law_classes_have_their_own_names(first: TargetClass, second: TargetClass)
    ensures
        first.spelled() == second.spelled() ==> first == second,
{
    reveal_strlit("ConnectTimeout");
    reveal_strlit("ReadTimeout");
    reveal_strlit("ProxyError");
    reveal_strlit("SSLError");
    reveal_strlit("InvalidURL");
    reveal_strlit("MissingSchema");
    reveal_strlit("InvalidHeader");
    reveal_strlit("RetryError");
    reveal_strlit("ConnectionError");
    assert("ConnectTimeout"@.len() == 14 && "ReadTimeout"@.len() == 11 && "ProxyError"@.len() == 10
        && "SSLError"@.len() == 8 && "InvalidURL"@.len() == 10 && "MissingSchema"@.len() == 13
        && "InvalidHeader"@.len() == 13 && "RetryError"@.len() == 10 && "ConnectionError"@.len()
        == 15);
    assert("ProxyError"@[0] == 'P' && "InvalidURL"@[0] == 'I' && "RetryError"@[0] == 'R');
    assert("MissingSchema"@[0] == 'M' && "InvalidHeader"@[0] == 'I');
}

/// A name stands for one kind of error and one site only, and an unknown name
/// for none.
pub proof fn law_names_of_kinds_and_sites(name: Seq<char>)
    ensures
        kind_named(Some(name)) == Some(ErrorKind::ConnectTimeout) ==> name == "connect_timeout"@,
        kind_named(Some(name)) == Some(ErrorKind::ReadTimeout) ==> name == "read_timeout"@,
        kind_named(Some(name)) == Some(ErrorKind::Proxy) ==> name == "proxy"@,
        kind_named(Some(name)) == Some(ErrorKind::Tls) ==> name == "tls"@,
        kind_named(Some(name)) == Some(ErrorKind::Handshake) ==> name == "handshake"@,
        kind_named(Some(name)) == Some(ErrorKind::InvalidUrl) ==> name == "invalid_url"@,
        kind_named(Some(name)) == Some(ErrorKind::MissingSchema) ==> name == "missing_schema"@,
        kind_named(Some(name)) == Some(ErrorKind::InvalidHeader) ==> name == "invalid_header"@,
        kind_named(Some(name)) == Some(ErrorKind::Retry) ==> name == "retry_exhausted"@,
        kind_named(Some(name)) == Some(ErrorKind::Connection) ==> name == "connection"@,
        kind_named(Some(name)) is None <==> !(seq![
            "connect_timeout"@,
            "read_timeout"@,
            "proxy"@,
            "tls"@,
            "handshake"@,
            "invalid_url"@,
            "missing_schema"@,
            "invalid_header"@,
            "retry_exhausted"@,
            "connection"@,
        ].contains(name)),
        kind_named(None) == Some(ErrorKind::Connection),
        site_named(name) == Some(MappingSite::AdapterTransport) ==> name == "adapter_transport"@,
        site_named(name) == Some(MappingSite::AdapterRetry) ==> name == "adapter_retry"@,
        site_named(name) == Some(MappingSite::ResponseStream) ==> name == "response_stream"@,
        site_named(name) == Some(MappingSite::ResponseJson) ==> name == "response_json"@,
        site_named(name) == Some(MappingSite::UrlPreparation) ==> name == "url"@,
        site_named(name) == Some(MappingSite::HeaderPreparation) ==> name == "header"@,
        site_named(name) == Some(MappingSite::Passthrough) ==> name == "passthrough"@,
        site_named(name) is None <==> !(seq![
            "adapter_transport"@,
            "adapter_retry"@,
            "response_stream"@,
            "response_json"@,
            "url"@,
            "header"@,
            "passthrough"@,
        ].contains(name)),
{
    let kinds = seq![
        "connect_timeout"@,
        "read_timeout"@,
        "proxy"@,
        "tls"@,
        "handshake"@,
        "invalid_url"@,
        "missing_schema"@,
        "invalid_header"@,
        "retry_exhausted"@,
        "connection"@,
    ];
    assert(kinds[0] == "connect_timeout"@ && kinds[1] == "read_timeout"@ && kinds[2] == "proxy"@
        && kinds[3] == "tls"@ && kinds[4] == "handshake"@ && kinds[5] == "invalid_url"@ && kinds[6]
        == "missing_schema"@ && kinds[7] == "invalid_header"@ && kinds[8] == "retry_exhausted"@
        && kinds[9] == "connection"@);
    let sites = seq![
        "adapter_transport"@,
        "adapter_retry"@,
        "response_stream"@,
        "response_json"@,
        "url"@,
        "header"@,
        "passthrough"@,
    ];
    assert(sites[0] == "adapter_transport"@ && sites[1] == "adapter_retry"@ && sites[2]
        == "response_stream"@ && sites[3] == "response_json"@ && sites[4] == "url"@ && sites[5]
        == "header"@ && sites[6] == "passthrough"@);
}

} // verus!
