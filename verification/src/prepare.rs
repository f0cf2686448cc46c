//! Whether a request's method, URL and headers are prepared natively, and what
//! is then set on the request.

use vstd::prelude::*;
use vstd::string::StringExecFns;
use vstd::string::StringSliceAdditionalSpecFns;

use crate::canonical::canonical_function_is;
use crate::canonical::{canonical_function_shape_is, has_shape, is_canonical};
use crate::heap::{Check, Failure, Heap, Pair};
use crate::heap::both;
use crate::intrinsic::{BuiltinName, IntrinsicBuiltin};
use crate::known::{known_value_is, KnownValue};
use crate::known::is_known_value;
use crate::model_state::{
    authoritative_field_is_none, raw_instance_dict, raw_intrinsic_builtin_fallback_is,
    raw_module_entry_is, raw_type_entry_is, trusted_bound_method_with_callable, Anchor, ModelsState,
    Trust};
use crate::model_state::{
    entry_is, falls_back_to_builtin, field_is_none, instance_dict, is_trusted_method, type_entry_is};

verus! {

/// The length in bytes from which a URL or a parameter stays in Python.
pub const NATIVE_LENGTH_LIMIT: usize = 200_000;

/// Whether a trusted function still is trusted.
pub open spec fn still_trusted(heap: Heap, state: ModelsState, trust: Trust) -> Check {
    is_canonical(heap, state.remembered(trust.anchor()), state.trusted(trust))
}

/// Whether a trusted function still is trusted.
fn check_trust(heap: &Heap, state: &ModelsState, trust: Trust) -> (check: Check)
    requires
        state.well_formed(),
    ensures
        check == still_trusted(*heap, *state, trust),
{
    canonical_function_is(heap, state.anchor(trust.object()), state.trust(trust))
}

/// Whether text still becomes native text as the modules define it.
pub open spec fn native_string_is_trusted(heap: Heap, state: ModelsState) -> Check {
    both(
        Ok(
            entry_is(
                heap,
                state.remembered(Anchor::Models),
                "to_native_string"@,
                state.remembered(Anchor::ToNativeString),
            ) && entry_is(
                heap,
                state.remembered(Anchor::InternalUtils),
                "builtin_str"@,
                heap.intrinsics.text,
            ),
        ),
        still_trusted(heap, state, Trust::ToNativeString),
    )
}

/// Whether text still becomes native text as the modules define it.
pub fn trusted_native_string_dependencies(heap: &Heap, state: &ModelsState) -> (check: Check)
    requires
        state.well_formed(),
    ensures
        check == native_string_is_trusted(*heap, *state),
{
    if !raw_module_entry_is(
        heap,
        state.anchor(Anchor::Models),
        "to_native_string",
        state.anchor(Anchor::ToNativeString),
    ) || !raw_module_entry_is(
        heap,
        state.anchor(Anchor::InternalUtils),
        "builtin_str",
        heap.intrinsics.text,
    ) {
        return Ok(false);
    }
    check_trust(heap, state, Trust::ToNativeString)
}

/// What is done about a request's method.
#[derive(Clone, Copy, Debug, PartialEq, Eq, Structural)]
pub enum MethodPlan {
    /// Python's own method is called.
    CallPython,
    /// The method is set to `None`.
    SetNone,
    /// The method is set as given, then to its native preparation.
    Native,
}

/// Whether a method can be prepared natively: a text or byte string of no
/// subclass and of ASCII characters. One of a single character would keep its
/// identity in Python, which native code cannot do.
pub open spec fn method_is_native(heap: Heap, method: usize) -> bool {
    if heap.is_exactly(method, heap.intrinsics.text) {
        heap.text_of(method) matches Some(text) && text.len() != 1 && vstd::utf8::is_ascii_chars(
            text,
        )
    } else if heap.is_exactly(method, heap.intrinsics.bytes) {
        heap.bytes_of(method) matches Some(bytes) && bytes.len() != 1 && ascii_bytes(bytes)
    } else {
        false
    }
}

/// Whether every byte is an ASCII character.
pub open spec fn ascii_bytes(bytes: Seq<u8>) -> bool {
    forall|index: int| 0 <= index < bytes.len() ==> #[trigger] bytes[index] < 128
}

/// Whether every byte is an ASCII character.
pub fn is_ascii_bytes(bytes: &Vec<u8>) -> (yes: bool)
    ensures
        yes == ascii_bytes(bytes@),
{
    let mut index: usize = 0;
    while index < bytes.len()
        invariant
            index <= bytes.len(),
            forall|i: int| 0 <= i < index ==> #[trigger] bytes@[i] < 128,
        decreases bytes.len() - index,
    {
        if bytes[index] >= 128 {
            assert(bytes@[index as int] >= 128);
            return false;
        }
        index = index + 1;
    }
    true
}

/// What is done about a request's method, once the request's own method is
/// known to be trusted or not.
pub open spec fn method_plan(
    heap: Heap,
    state: ModelsState,
    subject: usize,
    callable: usize,
    method: usize,
) -> Result<MethodPlan, Failure> {
    let trusted = both(
        is_trusted_method(
            heap,
            state,
            subject,
            "prepare_method"@,
            callable,
            state.remembered(Anchor::PrepareMethod),
            state.trusted(Trust::PrepareMethod),
        ),
        field_is_none(heap, subject, "method"@),
    );
    match trusted {
        Err(failure) => Err(failure),
        Ok(false) => Ok(MethodPlan::CallPython),
        Ok(true) => if heap.is_none_value(method) {
            Ok(MethodPlan::SetNone)
        } else if !method_is_native(heap, method) {
            Ok(MethodPlan::CallPython)
        } else {
            match native_string_is_trusted(heap, state) {
                Err(failure) => Err(failure),
                Ok(false) => Ok(MethodPlan::CallPython),
                Ok(true) => Ok(MethodPlan::Native),
            }
        },
    }
}

/// Whether a method can be prepared natively.
fn native_method(heap: &Heap, method: usize) -> (yes: bool)
    ensures
        yes == method_is_native(*heap, method),
{
    if heap.exactly(method, heap.intrinsics.text) {
        match heap.text(method) {
            Some(text) => {
                let length: usize = vstd::string::StrSliceExecFns::unicode_len(text.as_str());
                length != 1 && text.as_str().is_ascii()
            },
            None => false,
        }
    } else if heap.exactly(method, heap.intrinsics.bytes) {
        match heap.bytes(method) {
            Some(bytes) => bytes.len() != 1 && is_ascii_bytes(bytes),
            None => false,
        }
    } else {
        false
    }
}

/// Decides what is done about a request's method.
pub fn prepare_method_trial(
    heap: &Heap,
    state: Option<&ModelsState>,
    subject: usize,
    callable: usize,
    method: usize,
) -> (plan: Result<MethodPlan, Failure>)
    requires
        state matches Some(state) ==> state.well_formed(),
    ensures
        match state {
            None => plan == Ok::<MethodPlan, Failure>(MethodPlan::CallPython),
            Some(state) => plan == method_plan(*heap, *state, subject, callable, method),
        },
{
    let state = match state {
        Some(state) => state,
        None => {
            return Ok(MethodPlan::CallPython);
        },
    };
    match trusted_bound_method_with_callable(
        heap,
        state,
        subject,
        "prepare_method",
        callable,
        state.anchor(Anchor::PrepareMethod),
        state.trust(Trust::PrepareMethod),
    ) {
        Err(failure) => {
            return Err(failure);
        },
        Ok(false) => {
            return Ok(MethodPlan::CallPython);
        },
        Ok(true) => {},
    }
    match authoritative_field_is_none(heap, subject, "method") {
        Err(failure) => {
            return Err(failure);
        },
        Ok(false) => {
            return Ok(MethodPlan::CallPython);
        },
        Ok(true) => {},
    }
    if heap.none_value(method) {
        return Ok(MethodPlan::SetNone);
    }
    if !native_method(heap, method) {
        return Ok(MethodPlan::CallPython);
    }
    match trusted_native_string_dependencies(heap, state) {
        Err(failure) => Err(failure),
        Ok(false) => Ok(MethodPlan::CallPython),
        Ok(true) => Ok(MethodPlan::Native),
    }
}

/// Why a URL could not be prepared.
#[derive(Clone, Copy, Debug, PartialEq, Eq, Structural)]
pub enum UrlPreparationError {
    InvalidLabel,
    MissingHost,
    MissingScheme,
    Parse,
}

/// What the native core makes of a URL.
pub struct UrlFacts {
    /// The URL without its leading white space, as Python trims it.
    pub trimmed: String,
    /// Whether the URL is of another scheme and stays as it is.
    pub non_http: bool,
    /// Whether the native preparation covers the URL.
    pub native_safe: bool,
    /// The outcome of the native preparation without parameters: the error, if
    /// it failed.
    pub failure: Option<UrlPreparationError>,
}

/// What is done about a request's URL.
pub enum UrlPlan {
    /// Python's own method is called.
    CallPython,
    /// The URL is set to the very object that was given.
    KeepInput,
    /// The URL is set to the trimmed text.
    SetTrimmed,
    /// An error is raised.
    Fail(UrlPreparationError),
    /// The URL is set to the native preparation with these parameters added.
    SetPrepared(String),
}

/// What is done about a request's URL, with the parameters as characters.
pub enum UrlPlanView {
    CallPython,
    KeepInput,
    SetTrimmed,
    Fail(UrlPreparationError),
    SetPrepared(Seq<char>),
}

impl View for UrlPlan {
    type V = UrlPlanView;

    open spec fn view(&self) -> UrlPlanView {
        match self {
            UrlPlan::CallPython => UrlPlanView::CallPython,
            UrlPlan::KeepInput => UrlPlanView::KeepInput,
            UrlPlan::SetTrimmed => UrlPlanView::SetTrimmed,
            UrlPlan::Fail(error) => UrlPlanView::Fail(*error),
            UrlPlan::SetPrepared(parameters) => UrlPlanView::SetPrepared(parameters@),
        }
    }
}

/// Whether the tests on the URL that Python would make are the built-in ones.
pub open spec fn url_input_is_trusted(heap: Heap, state: ModelsState) -> Check {
    let builtins = state.remembered(Anchor::Builtins);
    let models = state.remembered(Anchor::Models);
    both(
        falls_back_to_builtin(
            heap,
            builtins,
            models,
            "isinstance"@,
            IntrinsicBuiltin::Function(BuiltinName::IsInstance),
        ),
        both(
            falls_back_to_builtin(heap, builtins, models, "bytes"@, IntrinsicBuiltin::Bytes),
            falls_back_to_builtin(heap, builtins, models, "str"@, IntrinsicBuiltin::Str),
        ),
    )
}

/// Whether the tests on the URL that Python would make are the built-in ones.
pub fn trusted_url_input_dependencies(heap: &Heap, state: &ModelsState) -> (check: Check)
    requires
        state.well_formed(),
    ensures
        check == url_input_is_trusted(*heap, *state),
{
    let builtins = state.anchor(Anchor::Builtins);
    let models = state.anchor(Anchor::Models);
    match raw_intrinsic_builtin_fallback_is(
        heap,
        builtins,
        models,
        "isinstance",
        IntrinsicBuiltin::Function(BuiltinName::IsInstance),
    ) {
        Ok(true) => {},
        other => {
            return other;
        },
    }
    match raw_intrinsic_builtin_fallback_is(
        heap,
        builtins,
        models,
        "bytes",
        IntrinsicBuiltin::Bytes,
    ) {
        Ok(true) => raw_intrinsic_builtin_fallback_is(
            heap,
            builtins,
            models,
            "str",
            IntrinsicBuiltin::Str,
        ),
        other => other,
    }
}

/// Whether a URL would still be taken apart and put together by the functions
/// that the modules define.
pub open spec fn url_parse_is_trusted(heap: Heap, state: ModelsState) -> Check {
    let models = state.remembered(Anchor::Models);
    both(
        Ok(
            entry_is(heap, models, "parse_url"@, state.remembered(Anchor::ParseUrl)) && entry_is(
                heap,
                models,
                "requote_uri"@,
                state.remembered(Anchor::RequoteUri),
            ) && entry_is(
                heap,
                models,
                "unicode_is_ascii"@,
                state.remembered(Anchor::UnicodeIsAscii),
            ) && entry_is(heap, models, "urlunparse"@, state.remembered(Anchor::UrlUnparse)),
        ),
        both(
            still_trusted(heap, state, Trust::ParseUrl),
            both(
                still_trusted(heap, state, Trust::RequoteUri),
                both(
                    still_trusted(heap, state, Trust::UnicodeIsAscii),
                    still_trusted(heap, state, Trust::UrlUnparse),
                ),
            ),
        ),
    )
}

/// Whether a URL would still be handled by the functions that the modules
/// define.
pub fn trusted_url_parse_dependencies(heap: &Heap, state: &ModelsState) -> (check: Check)
    requires
        state.well_formed(),
    ensures
        check == url_parse_is_trusted(*heap, *state),
{
    let models = state.anchor(Anchor::Models);
    if !raw_module_entry_is(heap, models, "parse_url", state.anchor(Anchor::ParseUrl))
        || !raw_module_entry_is(heap, models, "requote_uri", state.anchor(Anchor::RequoteUri))
        || !raw_module_entry_is(
        heap,
        models,
        "unicode_is_ascii",
        state.anchor(Anchor::UnicodeIsAscii),
    ) || !raw_module_entry_is(heap, models, "urlunparse", state.anchor(Anchor::UrlUnparse)) {
        return Ok(false);
    }
    match check_trust(heap, state, Trust::ParseUrl) {
        Ok(true) => {},
        other => {
            return other;
        },
    }
    match check_trust(heap, state, Trust::RequoteUri) {
        Ok(true) => {},
        other => {
            return other;
        },
    }
    match check_trust(heap, state, Trust::UnicodeIsAscii) {
        Ok(true) => check_trust(heap, state, Trust::UrlUnparse),
        other => other,
    }
}

/// Whether the error that a failed preparation raises is still the one that
/// Python would raise.
pub open spec fn url_error_is_trusted(
    heap: Heap,
    state: ModelsState,
    error: UrlPreparationError,
) -> bool {
    let models = state.remembered(Anchor::Models);
    match error {
        UrlPreparationError::MissingScheme => entry_is(
            heap,
            models,
            "MissingSchema"@,
            state.remembered(Anchor::MissingSchema),
        ),
        UrlPreparationError::Parse => entry_is(
            heap,
            models,
            "LocationParseError"@,
            state.remembered(Anchor::LocationParseError),
        ) && entry_is(heap, models, "InvalidURL"@, state.remembered(Anchor::InvalidUrl)),
        _ => entry_is(heap, models, "InvalidURL"@, state.remembered(Anchor::InvalidUrl)),
    }
}

/// Whether the error that a failed preparation raises is still the one that
/// Python would raise.
pub fn trusted_url_error_dependencies(
    heap: &Heap,
    state: &ModelsState,
    error: UrlPreparationError,
) -> (yes: bool)
    requires
        state.well_formed(),
    ensures
        yes == url_error_is_trusted(*heap, *state, error),
{
    let models = state.anchor(Anchor::Models);
    match error {
        UrlPreparationError::MissingScheme => raw_module_entry_is(
            heap,
            models,
            "MissingSchema",
            state.anchor(Anchor::MissingSchema),
        ),
        UrlPreparationError::Parse => raw_module_entry_is(
            heap,
            models,
            "LocationParseError",
            state.anchor(Anchor::LocationParseError),
        ) && raw_module_entry_is(heap, models, "InvalidURL", state.anchor(Anchor::InvalidUrl)),
        _ => raw_module_entry_is(heap, models, "InvalidURL", state.anchor(Anchor::InvalidUrl)),
    }
}

/// Whether a request still encodes parameters by the descriptor met first.
pub open spec fn keeps_encode_params(heap: Heap, state: ModelsState, subject: usize) -> Check {
    match instance_dict(heap, subject) {
        Err(failure) => Err(failure),
        Ok(own) => Ok(
            heap.entry_of(own, "_encode_params"@) is None && (heap.at(subject) matches Some(found)
                && type_entry_is(
                heap,
                found.class,
                "_encode_params"@,
                state.remembered(Anchor::EncodeParamsDescriptor),
            )),
        ),
    }
}

/// Whether a request still encodes parameters by the descriptor met first.
pub fn has_original_encode_params_descriptor(heap: &Heap, state: &ModelsState, subject: usize) -> (
    check: Check)
    requires
        state.well_formed(),
    ensures
        check == keeps_encode_params(*heap, *state, subject),
{
    match raw_instance_dict(heap, subject) {
        Err(failure) => Err(failure),
        Ok(own) => {
            if heap.entry(own, "_encode_params").is_some() {
                return Ok(false);
            }
            match heap.get(subject) {
                Some(found) => Ok(
                    raw_type_entry_is(
                        heap,
                        found.class,
                        "_encode_params",
                        state.anchor(Anchor::EncodeParamsDescriptor),
                    ),
                ),
                None => Ok(false),
            }
        },
    }
}

/// Whether the parameters are a text or byte string that Python's own code
/// would take as it is.
pub open spec fn url_parameters_are_trusted(
    heap: Heap,
    state: ModelsState,
    subject: usize,
    params: usize,
) -> Check {
    let builtins = state.remembered(Anchor::Builtins);
    let models = state.remembered(Anchor::Models);
    both(
        Ok(
            heap.is_exactly(params, heap.intrinsics.text) || heap.is_exactly(
                params,
                heap.intrinsics.bytes,
            ),
        ),
        both(
            keeps_encode_params(heap, state, subject),
            both(
                has_shape(
                    heap,
                    state.remembered(Anchor::EncodeParamsFunction),
                    state.trusted(Trust::EncodeParams),
                ),
                both(
                    falls_back_to_builtin(
                        heap,
                        builtins,
                        models,
                        "isinstance"@,
                        IntrinsicBuiltin::Function(BuiltinName::IsInstance),
                    ),
                    match heap.module_entry_of(models, "basestring"@) {
                        None => Ok(false),
                        Some(basestring) => is_known_value(
                            heap,
                            builtins,
                            basestring,
                            KnownValue::IntrinsicPair(IntrinsicBuiltin::Str, IntrinsicBuiltin::Bytes),
                            None,
                        ),
                    },
                ),
            ),
        ),
    )
}

/// Whether the parameters are a text or byte string that Python's own code
/// would take as it is.
pub fn trusted_url_parameter_dependencies(
    heap: &Heap,
    state: &ModelsState,
    subject: usize,
    params: usize,
) -> (check: Check)
    requires
        state.well_formed(),
    ensures
        check == url_parameters_are_trusted(*heap, *state, subject, params),
{
    if !heap.exactly(params, heap.intrinsics.text) && !heap.exactly(params, heap.intrinsics.bytes) {
        return Ok(false);
    }
    match has_original_encode_params_descriptor(heap, state, subject) {
        Ok(true) => {},
        other => {
            return other;
        },
    }
    match canonical_function_shape_is(
        heap,
        state.anchor(Anchor::EncodeParamsFunction),
        state.trust(Trust::EncodeParams),
    ) {
        Ok(true) => {},
        other => {
            return other;
        },
    }
    let builtins = state.anchor(Anchor::Builtins);
    let models = state.anchor(Anchor::Models);
    match raw_intrinsic_builtin_fallback_is(
        heap,
        builtins,
        models,
        "isinstance",
        IntrinsicBuiltin::Function(BuiltinName::IsInstance),
    ) {
        Ok(true) => {},
        other => {
            return other;
        },
    }
    match heap.module_entry(models, "basestring") {
        None => Ok(false),
        Some(basestring) => known_value_is(
            heap,
            builtins,
            basestring,
            KnownValue::IntrinsicPair(IntrinsicBuiltin::Str, IntrinsicBuiltin::Bytes),
            None,
        ),
    }
}

/// What decoding a byte string gives, as the snapshot has it under the call.
pub open spec fn decoded(heap: Heap, bytes: usize, call: Seq<char>) -> Result<
    Option<Seq<char>>,
    Failure,
> {
    match heap.attribute_of(bytes, call) {
        None => Err(Failure::Kind),
        Some(text) => Ok(heap.text_of(text)),
    }
}

/// The text of a URL: of a text or byte string of no subclass. Nothing where
/// it cannot be encoded; no answer where decoding fails.
pub open spec fn url_text(heap: Heap, url: usize) -> Result<Option<Seq<char>>, Failure> {
    if heap.is_exactly(url, heap.intrinsics.text) {
        Ok(heap.text_of(url))
    } else if heap.is_exactly(url, heap.intrinsics.bytes) {
        decoded(heap, url, "decode('utf8')"@)
    } else {
        Ok(None)
    }
}

/// The text that decoding a byte string gives.
fn decode(heap: &Heap, bytes: usize, call: &str) -> (text: Result<Option<String>, Failure>)
    ensures
        match text {
            Ok(Some(text)) => decoded(*heap, bytes, call@) == Ok::<Option<Seq<char>>, Failure>(
                Some(text@),
            ),
            Ok(None) => decoded(*heap, bytes, call@) == Ok::<Option<Seq<char>>, Failure>(None),
            Err(failure) => decoded(*heap, bytes, call@) == Err::<Option<Seq<char>>, Failure>(
                failure,
            ),
        },
{
    match heap.attribute(bytes, call) {
        None => Err(Failure::Kind),
        Some(object) => match heap.text(object) {
            Some(text) => Ok(Some(text.clone())),
            None => Ok(None),
        },
    }
}

/// The text of a URL.
pub fn exact_url_text(heap: &Heap, url: usize) -> (text: Result<Option<String>, Failure>)
    ensures
        match text {
            Ok(Some(text)) => url_text(*heap, url) == Ok::<Option<Seq<char>>, Failure>(Some(text@)),
            Ok(None) => url_text(*heap, url) == Ok::<Option<Seq<char>>, Failure>(None),
            Err(failure) => url_text(*heap, url) == Err::<Option<Seq<char>>, Failure>(failure),
        },
{
    if heap.exactly(url, heap.intrinsics.text) {
        match heap.text(url) {
            Some(text) => Ok(Some(text.clone())),
            None => Ok(None),
        }
    } else if heap.exactly(url, heap.intrinsics.bytes) {
        decode(heap, url, "decode('utf8')")
    } else {
        Ok(None)
    }
}

/// The encoded parameters of a text or byte string. A byte string is decoded
/// as ASCII, and has no answer where that fails.
pub open spec fn encoded_text_params(heap: Heap, params: usize) -> Result<Option<Seq<char>>, Failure> {
    if heap.is_exactly(params, heap.intrinsics.text) {
        Ok(heap.text_of(params))
    } else {
        match decoded(heap, params, "decode('ascii')"@) {
            Ok(None) => Err(Failure::Kind),
            other => other,
        }
    }
}

/// The encoded parameters of a text or byte string.
fn exact_text_params(heap: &Heap, params: usize) -> (text: Result<Option<String>, Failure>)
    ensures
        match text {
            Ok(Some(text)) => encoded_text_params(*heap, params) == Ok::<
                Option<Seq<char>>,
                Failure,
            >(Some(text@)),
            Ok(None) => encoded_text_params(*heap, params) == Ok::<Option<Seq<char>>, Failure>(None),
            Err(failure) => encoded_text_params(*heap, params) == Err::<Option<Seq<char>>, Failure>(
                failure,
            ),
        },
{
    if heap.exactly(params, heap.intrinsics.text) {
        match heap.text(params) {
            Some(text) => Ok(Some(text.clone())),
            None => Ok(None),
        }
    } else {
        match decode(heap, params, "decode('ascii')") {
            Ok(Some(text)) => Ok(Some(text)),
            Ok(None) => Err(Failure::Kind),
            Err(failure) => Err(failure),
        }
    }
}

/// What is done about a URL whose native preparation succeeded.
pub open spec fn url_parameter_plan(
    heap: Heap,
    state: ModelsState,
    subject: usize,
    params: usize,
) -> Result<UrlPlanView, Failure> {
    if heap.is_none_value(params) {
        Ok(UrlPlanView::SetPrepared(Seq::empty()))
    } else {
        match url_parameters_are_trusted(heap, state, subject, params) {
            Err(failure) => Err(failure),
            Ok(false) => Ok(UrlPlanView::CallPython),
            Ok(true) => match encoded_text_params(heap, params) {
                Err(failure) => Err(failure),
                Ok(None) => Ok(UrlPlanView::CallPython),
                Ok(Some(text)) => Ok(UrlPlanView::SetPrepared(text)),
            },
        }
    }
}

/// What is done about a request's URL. `raw` is the URL's text.
pub open spec fn url_plan(
    heap: Heap,
    state: ModelsState,
    subject: usize,
    callable: usize,
    url: usize,
    params: usize,
    facts: UrlFacts,
) -> Result<UrlPlanView, Failure> {
    let trusted = both(
        is_trusted_method(
            heap,
            state,
            subject,
            "prepare_url"@,
            callable,
            state.remembered(Anchor::PrepareUrl),
            state.trusted(Trust::PrepareUrl),
        ),
        url_input_is_trusted(heap, state),
    );
    match trusted {
        Err(failure) => Err(failure),
        Ok(false) => Ok(UrlPlanView::CallPython),
        Ok(true) => match url_text(heap, url) {
            Err(failure) => Err(failure),
            Ok(None) => Ok(UrlPlanView::CallPython),
            Ok(Some(raw)) => if facts.non_http {
                if heap.is_exactly(url, heap.intrinsics.text) && vstd::utf8::encode_utf8(
                    facts.trimmed@,
                ).len() as usize == vstd::utf8::encode_utf8(raw).len() as usize {
                    Ok(UrlPlanView::KeepInput)
                } else {
                    Ok(UrlPlanView::SetTrimmed)
                }
            } else if vstd::utf8::encode_utf8(facts.trimmed@).len() as usize >= NATIVE_LENGTH_LIMIT
                || !facts.native_safe {
                Ok(UrlPlanView::CallPython)
            } else {
                match url_parse_is_trusted(heap, state) {
                    Err(failure) => Err(failure),
                    Ok(false) => Ok(UrlPlanView::CallPython),
                    Ok(true) => match facts.failure {
                        Some(error) => if url_error_is_trusted(heap, state, error) {
                            Ok(UrlPlanView::Fail(error))
                        } else {
                            Ok(UrlPlanView::CallPython)
                        },
                        None => url_parameter_plan(heap, state, subject, params),
                    },
                }
            },
        },
    }
}

/// Decides what is done about a request's URL. The facts are the native core's
/// answers on the URL's text.
pub fn prepare_url_trial(
    heap: &Heap,
    state: Option<&ModelsState>,
    subject: usize,
    callable: usize,
    url: usize,
    params: usize,
    facts: &UrlFacts,
) -> (plan: Result<UrlPlan, Failure>)
    requires
        state matches Some(state) ==> state.well_formed(),
    ensures
        match state {
            None => plan matches Ok(UrlPlan::CallPython),
            Some(state) => match plan {
                Ok(plan) => url_plan(*heap, *state, subject, callable, url, params, *facts) == Ok::<
                    UrlPlanView,
                    Failure,
                >(plan@),
                Err(failure) => url_plan(*heap, *state, subject, callable, url, params, *facts)
                    == Err::<UrlPlanView, Failure>(failure),
            },
        },
{
    let state = match state {
        Some(state) => state,
        None => {
            return Ok(UrlPlan::CallPython);
        },
    };
    match trusted_bound_method_with_callable(
        heap,
        state,
        subject,
        "prepare_url",
        callable,
        state.anchor(Anchor::PrepareUrl),
        state.trust(Trust::PrepareUrl),
    ) {
        Err(failure) => {
            return Err(failure);
        },
        Ok(false) => {
            return Ok(UrlPlan::CallPython);
        },
        Ok(true) => {},
    }
    match trusted_url_input_dependencies(heap, state) {
        Err(failure) => {
            return Err(failure);
        },
        Ok(false) => {
            return Ok(UrlPlan::CallPython);
        },
        Ok(true) => {},
    }
    let raw = match exact_url_text(heap, url) {
        Err(failure) => {
            return Err(failure);
        },
        Ok(None) => {
            return Ok(UrlPlan::CallPython);
        },
        Ok(Some(raw)) => raw,
    };
    let trimmed_length: usize = facts.trimmed.as_str().len();
    if facts.non_http {
        let raw_length: usize = raw.as_str().len();
        return if heap.exactly(url, heap.intrinsics.text) && trimmed_length == raw_length {
            Ok(UrlPlan::KeepInput)
        } else {
            Ok(UrlPlan::SetTrimmed)
        };
    }
    if trimmed_length >= NATIVE_LENGTH_LIMIT || !facts.native_safe {
        return Ok(UrlPlan::CallPython);
    }
    match trusted_url_parse_dependencies(heap, state) {
        Err(failure) => {
            return Err(failure);
        },
        Ok(false) => {
            return Ok(UrlPlan::CallPython);
        },
        Ok(true) => {},
    }
    match facts.failure {
        Some(error) => {
            return if trusted_url_error_dependencies(heap, state, error) {
                Ok(UrlPlan::Fail(error))
            } else {
                Ok(UrlPlan::CallPython)
            };
        },
        None => {},
    }
    if heap.none_value(params) {
        return Ok(UrlPlan::SetPrepared(String::new()));
    }
    match trusted_url_parameter_dependencies(heap, state, subject, params) {
        Err(failure) => {
            return Err(failure);
        },
        Ok(false) => {
            return Ok(UrlPlan::CallPython);
        },
        Ok(true) => {},
    }
    match exact_text_params(heap, params) {
        Err(failure) => Err(failure),
        Ok(None) => Ok(UrlPlan::CallPython),
        Ok(Some(text)) => Ok(UrlPlan::SetPrepared(text)),
    }
}

/// The exception that a failed URL preparation raises.
#[derive(Clone, Copy, Debug, PartialEq, Eq, Structural)]
pub enum UrlErrorKind {
    InvalidUrl,
    MissingSchema,
}

/// The exception of a failed URL preparation.
pub open spec fn url_error_kind(error: UrlPreparationError) -> UrlErrorKind {
    if error is MissingScheme {
        UrlErrorKind::MissingSchema
    } else {
        UrlErrorKind::InvalidUrl
    }
}

/// The message of a failed URL preparation.
pub open spec fn url_error_text(
    error: UrlPreparationError,
    raw_url: Seq<char>,
    url_repr: Seq<char>,
) -> Seq<char> {
    match error {
        UrlPreparationError::InvalidLabel => "URL has an invalid label."@,
        UrlPreparationError::MissingHost => "Invalid URL "@ + url_repr + ": No host supplied"@,
        UrlPreparationError::MissingScheme => "Invalid URL "@ + url_repr
            + ": No scheme supplied. Perhaps you meant https://"@ + raw_url + "?"@,
        UrlPreparationError::Parse => "Failed to parse: "@ + raw_url,
    }
}

/// The exception and message of a failed URL preparation.
pub fn url_preparation_error(error: UrlPreparationError, raw_url: &str, url_repr: &str) -> (raised: (
    UrlErrorKind,
    String,
))
    ensures
        raised.0 == url_error_kind(error),
        raised.1@ == url_error_text(error, raw_url@, url_repr@),
{
    match error {
        UrlPreparationError::InvalidLabel => (
            UrlErrorKind::InvalidUrl,
            String::from_str("URL has an invalid label."),
        ),
        UrlPreparationError::MissingHost => {
            let mut message = String::from_str("Invalid URL ");
            message.append(url_repr);
            message.append(": No host supplied");
            (UrlErrorKind::InvalidUrl, message)
        },
        UrlPreparationError::MissingScheme => {
            let mut message = String::from_str("Invalid URL ");
            message.append(url_repr);
            message.append(": No scheme supplied. Perhaps you meant https://");
            message.append(raw_url);
            message.append("?");
            (UrlErrorKind::MissingSchema, message)
        },
        UrlPreparationError::Parse => {
            let mut message = String::from_str("Failed to parse: ");
            message.append(raw_url);
            (UrlErrorKind::InvalidUrl, message)
        },
    }
}

/// The bytes of a parameter: a text or byte string of no subclass, below the
/// length limit.
pub open spec fn parameter_bytes(heap: Heap, value: usize) -> Option<Seq<u8>> {
    let bytes = if heap.is_exactly(value, heap.intrinsics.bytes) {
        heap.bytes_of(value)
    } else if heap.is_exactly(value, heap.intrinsics.text) {
        match heap.text_of(value) {
            Some(text) => Some(vstd::utf8::encode_utf8(text)),
            None => None,
        }
    } else {
        None
    };
    match bytes {
        Some(bytes) => if (bytes.len() as usize) < NATIVE_LENGTH_LIMIT {
            Some(bytes)
        } else {
            None
        },
        None => None,
    }
}

/// The bytes of a parameter.
pub fn exact_parameter_bytes(heap: &Heap, value: usize) -> (bytes: Option<Vec<u8>>)
    ensures
        match bytes {
            Some(bytes) => parameter_bytes(*heap, value) == Some(bytes@),
            None => parameter_bytes(*heap, value) is None,
        },
{
    if heap.exactly(value, heap.intrinsics.bytes) {
        match heap.bytes(value) {
            Some(bytes) => if bytes.len() < NATIVE_LENGTH_LIMIT {
                let copied = bytes.clone();
                assert(copied@ =~= bytes@);
                Some(copied)
            } else {
                None
            },
            None => None,
        }
    } else if heap.exactly(value, heap.intrinsics.text) {
        match heap.text(value) {
            Some(text) => if text.as_str().len() < NATIVE_LENGTH_LIMIT {
                Some(vstd::string::StrSliceExecFns::as_bytes_vec(text.as_str()))
            } else {
                None
            },
            None => None,
        }
    } else {
        None
    }
}

/// One parameter of a query.
pub struct QueryPair {
    pub name: Vec<u8>,
    pub value: Vec<u8>,
}

/// The parameters as sequences.
pub open spec fn query_views(pairs: Seq<QueryPair>) -> Seq<(Seq<u8>, Seq<u8>)> {
    pairs.map_values(|pair: QueryPair| (pair.name@, pair.value@))
}

/// The parameters that a list of values gives to one name: `None` is left out,
/// and anything but a text or byte string has no answer.
pub open spec fn listed_pairs(heap: Heap, name: Seq<u8>, values: Seq<usize>) -> Option<
    Seq<(Seq<u8>, Seq<u8>)>,
>
    decreases values.len(),
{
    if values.len() == 0 {
        Some(Seq::empty())
    } else {
        match listed_pairs(heap, name, values.drop_last()) {
            None => None,
            Some(front) => if heap.is_none_value(values.last()) {
                Some(front)
            } else {
                match parameter_bytes(heap, values.last()) {
                    None => None,
                    Some(value) => Some(front.push((name, value))),
                }
            },
        }
    }
}

/// The parameters that one entry of a dict gives.
pub open spec fn entry_pairs(heap: Heap, entry: Pair) -> Option<Seq<(Seq<u8>, Seq<u8>)>> {
    match parameter_bytes(heap, entry.key) {
        None => None,
        Some(name) => if heap.is_none_value(entry.value) {
            Some(Seq::empty())
        } else {
            match parameter_bytes(heap, entry.value) {
                Some(value) => Some(seq![(name, value)]),
                None => if heap.is_exactly(entry.value, heap.intrinsics.list) || heap.is_exactly(
                    entry.value,
                    heap.intrinsics.tuple,
                ) {
                    match heap.elements_of(entry.value) {
                        Some(values) => listed_pairs(heap, name, values),
                        None => None,
                    }
                } else {
                    None
                },
            }
        },
    }
}

/// The parameters that the entries of a dict give, in order.
pub open spec fn dict_pairs(heap: Heap, entries: Seq<Pair>) -> Option<Seq<(Seq<u8>, Seq<u8>)>>
    decreases entries.len(),
{
    if entries.len() == 0 {
        Some(Seq::empty())
    } else {
        match (dict_pairs(heap, entries.drop_last()), entry_pairs(heap, entries.last())) {
            (Some(front), Some(last)) => Some(front + last),
            _ => None,
        }
    }
}

/// Takes the parameters of one entry.
fn collect_entry(heap: &Heap, entry: Pair, pairs: &mut Vec<QueryPair>) -> (native: bool)
    ensures
        native == entry_pairs(*heap, entry) is Some,
        native ==> query_views(final(pairs)@) == query_views(old(pairs)@) + entry_pairs(
            *heap,
            entry,
        )->0,
{
    let ghost before = query_views(pairs@);
    let name = match exact_parameter_bytes(heap, entry.key) {
        Some(name) => name,
        None => {
            return false;
        },
    };
    if heap.none_value(entry.value) {
        assert(before + Seq::<(Seq<u8>, Seq<u8>)>::empty() =~= before);
        return true;
    }
    match exact_parameter_bytes(heap, entry.value) {
        Some(value) => {
            let ghost added = (name@, value@);
            pairs.push(QueryPair { name, value });
            assert(query_views(pairs@) =~= before + seq![added]);
            return true;
        },
        None => {},
    }
    if !heap.exactly(entry.value, heap.intrinsics.list) && !heap.exactly(
        entry.value,
        heap.intrinsics.tuple,
    ) {
        return false;
    }
    let values = match heap.elements(entry.value) {
        Some(values) => values,
        None => {
            return false;
        },
    };
    let mut index: usize = 0;
    assert(before + Seq::<(Seq<u8>, Seq<u8>)>::empty() =~= before);
    assert(values@.take(0) =~= Seq::<usize>::empty());
    while index < values.len()
        invariant
            index <= values@.len(),
            listed_pairs(*heap, name@, values@.take(index as int)) matches Some(front)
                && query_views(pairs@) == before + front,
            entry_pairs(*heap, entry) == listed_pairs(*heap, name@, values@),
        decreases values@.len() - index,
    {
        let ghost front = listed_pairs(*heap, name@, values@.take(index as int))->0;
        proof {
            assert(values@.take(index + 1).drop_last() =~= values@.take(index as int));
            assert(values@.take(index + 1).last() == values@[index as int]);
        }
        if !heap.none_value(values[index]) {
            match exact_parameter_bytes(heap, values[index]) {
                Some(value) => {
                    let ghost added = (name@, value@);
                    let copied = name.clone();
                    assert(copied@ =~= name@);
                    let ghost prior = query_views(pairs@);
                    pairs.push(QueryPair { name: copied, value });
                    assert(query_views(pairs@) =~= prior.push(added));
                    assert(query_views(pairs@) =~= before + front.push(added));
                },
                None => {
                    proof {
                        lemma_listed_refusal(*heap, name@, values@, index + 1);
                    }
                    return false;
                },
            }
        }
        index = index + 1;
    }
    assert(values@.take(index as int) =~= values@);
    true
}

/// A list whose front has no answer has none.
proof fn lemma_listed_refusal(heap: Heap, name: Seq<u8>, values: Seq<usize>, count: int)
    requires
        0 <= count <= values.len(),
        listed_pairs(heap, name, values.take(count)) is None,
    ensures
        listed_pairs(heap, name, values) is None,
    decreases values.len() - count,
{
    if count == values.len() {
        assert(values.take(count) =~= values);
    } else {
        assert(values.take(count + 1).drop_last() =~= values.take(count));
        lemma_listed_refusal(heap, name, values, count + 1);
    }
}

/// Entries whose front has no answer have none.
proof fn lemma_dict_refusal(heap: Heap, entries: Seq<Pair>, count: int)
    requires
        0 <= count <= entries.len(),
        dict_pairs(heap, entries.take(count)) is None,
    ensures
        dict_pairs(heap, entries) is None,
    decreases entries.len() - count,
{
    if count == entries.len() {
        assert(entries.take(count) =~= entries);
    } else {
        assert(entries.take(count + 1).drop_last() =~= entries.take(count));
        lemma_dict_refusal(heap, entries, count + 1);
    }
}

/// The query pairs of a dict of no subclass.
pub fn exact_query_pairs(heap: &Heap, params: usize) -> (pairs: Option<Vec<QueryPair>>)
    ensures
        match pairs {
            Some(pairs) => heap.is_exactly(params, heap.intrinsics.dict) && (heap.dict_of(
                params,
            ) matches Some(entries) && dict_pairs(*heap, entries) == Some(query_views(pairs@))),
            None => !heap.is_exactly(params, heap.intrinsics.dict) || (heap.dict_of(
                params,
            ) matches Some(entries) ==> dict_pairs(*heap, entries) is None),
        },
{
    if !heap.exactly(params, heap.intrinsics.dict) {
        return None;
    }
    let entries = match heap.dict(params) {
        Some(entries) => entries,
        None => {
            return None;
        },
    };
    let mut pairs: Vec<QueryPair> = Vec::new();
    let mut index: usize = 0;
    assert(query_views(pairs@) =~= Seq::<(Seq<u8>, Seq<u8>)>::empty());
    assert(entries@.take(0) =~= Seq::<Pair>::empty());
    while index < entries.len()
        invariant
            index <= entries@.len(),
            heap.dict_of(params) == Some(entries@),
            dict_pairs(*heap, entries@.take(index as int)) == Some(query_views(pairs@)),
        decreases entries@.len() - index,
    {
        proof {
            assert(entries@.take(index + 1).drop_last() =~= entries@.take(index as int));
            assert(entries@.take(index + 1).last() == entries@[index as int]);
        }
        if !collect_entry(heap, entries[index], &mut pairs) {
            proof {
                lemma_dict_refusal(*heap, entries@, index + 1);
            }
            return None;
        }
        index = index + 1;
    }
    assert(entries@.take(index as int) =~= entries@);
    Some(pairs)
}

/// A method is set natively exactly where the way to prepare it is the one first
/// met, the request has none yet, and it is an exact ASCII text or byte string
/// that Python would convert as it always did. `None` stays `None`.
pub proof fn law_methods_are_native_where_nothing_changed(
    heap: Heap,
    state: ModelsState,
    subject: usize,
    callable: usize,
    method: usize,
)
    ensures
        ({
            let trusted = is_trusted_method(
                heap,
                state,
                subject,
                "prepare_method"@,
                callable,
                state.remembered(Anchor::PrepareMethod),
                state.trusted(Trust::PrepareMethod),
            ) == Ok::<bool, Failure>(true) && field_is_none(heap, subject, "method"@) == Ok::<
                bool,
                Failure,
            >(true);
            let plan = method_plan(heap, state, subject, callable, method);
            &&& plan == Ok::<MethodPlan, Failure>(MethodPlan::SetNone) <==> trusted
                && heap.is_none_value(method)
            &&& plan == Ok::<MethodPlan, Failure>(MethodPlan::Native) <==> trusted
                && !heap.is_none_value(method) && method_is_native(heap, method)
                && native_string_is_trusted(heap, state) == Ok::<bool, Failure>(true)
        }),
        method_is_native(heap, method) ==> heap.is_exactly(method, heap.intrinsics.text)
            || heap.is_exactly(method, heap.intrinsics.bytes),
        heap.is_exactly(method, heap.intrinsics.bytes) && !heap.is_exactly(
            method,
            heap.intrinsics.text,
        ) ==> (method_is_native(heap, method) <==> (heap.bytes_of(method) matches Some(bytes)
            && bytes.len() != 1 && forall|index: int|
            0 <= index < bytes.len() ==> #[trigger] bytes[index] < 128)),
{
}

/// A URL is prepared natively, or fails natively, only where the way to prepare it
/// and to parse it are the ones first met, it is an exact text or byte string, and
/// it is one of the web that the native code can take. A URL of another kind keeps
/// its text, without the space before it.
pub proof fn law_urls_are_native_where_nothing_changed(
    heap: Heap,
    state: ModelsState,
    subject: usize,
    callable: usize,
    url: usize,
    params: usize,
    facts: UrlFacts,
)
    ensures
        ({
            let plan = url_plan(heap, state, subject, callable, url, params, facts);
            let method = is_trusted_method(
                heap,
                state,
                subject,
                "prepare_url"@,
                callable,
                state.remembered(Anchor::PrepareUrl),
                state.trusted(Trust::PrepareUrl),
            ) == Ok::<bool, Failure>(true) && url_input_is_trusted(heap, state) == Ok::<
                bool,
                Failure,
            >(true);
            let readable = url_text(heap, url) matches Ok(Some(_));
            let parsed = !facts.non_http && facts.native_safe && url_parse_is_trusted(heap, state)
                == Ok::<bool, Failure>(true);
            &&& plan matches Ok(UrlPlanView::KeepInput) ==> method && readable && facts.non_http
                && heap.is_exactly(url, heap.intrinsics.text)
            &&& plan matches Ok(UrlPlanView::SetTrimmed) ==> method && readable && facts.non_http
            &&& method && readable && facts.non_http ==> (plan matches Ok(plan) && (plan
                is KeepInput || plan is SetTrimmed))
            &&& plan matches Ok(UrlPlanView::Fail(error)) ==> method && readable && parsed
                && facts.failure == Some(error) && url_error_is_trusted(heap, state, error)
            &&& plan matches Ok(UrlPlanView::SetPrepared(text)) ==> method && readable && parsed
                && facts.failure is None && (if heap.is_none_value(params) {
                text.len() == 0
            } else {
                &&& url_parameters_are_trusted(heap, state, subject, params) == Ok::<bool, Failure>(
                    true,
                )
                &&& heap.is_exactly(params, heap.intrinsics.text) ==> heap.text_of(params) == Some(
                    text,
                )
            })
        }),
{
}

/// The text of a URL is its own where it is an exact text, and what decoding it
/// gives where it is an exact byte string; nothing else has one.
pub proof fn law_texts_of_urls(heap: Heap, url: usize, text: Seq<char>)
    ensures
        url_text(heap, url) == Ok::<Option<Seq<char>>, Failure>(Some(text)) <==> {
            ||| heap.is_exactly(url, heap.intrinsics.text) && heap.text_of(url) == Some(text)
            ||| {
                &&& !heap.is_exactly(url, heap.intrinsics.text)
                &&& heap.is_exactly(url, heap.intrinsics.bytes)
                &&& heap.attribute_of(url, "decode('utf8')"@) matches Some(decoded)
                &&& heap.text_of(decoded) == Some(text)
            }
        },
{
}

/// What can go wrong with a URL has its own class: a missing scheme one of its
/// own, and the rest that of a bad URL. The message of a missing scheme suggests
/// one, and others name the URL.
pub proof fn law_url_errors_have_their_class(
    error: UrlPreparationError,
    raw_url: Seq<char>,
    url_repr: Seq<char>,
)
    ensures
        url_error_kind(error) is MissingSchema <==> error is MissingScheme,
        url_error_kind(error) is InvalidUrl <==> !(error is MissingScheme),
        error is MissingHost ==> ("Invalid URL "@ + url_repr).is_prefix_of(
            url_error_text(error, raw_url, url_repr),
        ),
        error is MissingScheme ==> ("Invalid URL "@ + url_repr).is_prefix_of(
            url_error_text(error, raw_url, url_repr),
        ) && (raw_url + "?"@).is_suffix_of(url_error_text(error, raw_url, url_repr)),
        error is Parse ==> raw_url.is_suffix_of(url_error_text(error, raw_url, url_repr)),
{
    let text = url_error_text(error, raw_url, url_repr);
    let start = "Invalid URL "@ + url_repr;
    if error is MissingHost {
        assert(text.subrange(0, start.len() as int) =~= start);
    }
    if error is MissingScheme {
        assert(text.subrange(0, start.len() as int) =~= start);
        let end = raw_url + "?"@;
        assert(text.subrange(text.len() - end.len(), text.len() as int) =~= end);
    }
    if error is Parse {
        assert(text.subrange(text.len() - raw_url.len(), text.len() as int) =~= raw_url);
    }
}

/// The pairs of parameters follow one another: those of a dict are those of its
/// first entries and then those of the others, and where one entry cannot be
/// taken, none is.
pub proof fn law_pairs_follow_the_entries(heap: Heap, first: Seq<Pair>, second: Seq<Pair>)
    ensures
        dict_pairs(heap, first + second) == (match (
            dict_pairs(heap, first),
            dict_pairs(heap, second),
        ) {
            (Some(before), Some(after)) => Some(before + after),
            _ => None,
        }),
    decreases second.len(),
{
    if second.len() == 0 {
        assert(first + second =~= first);
        if let Some(before) = dict_pairs(heap, first) {
            assert(before + Seq::<(Seq<u8>, Seq<u8>)>::empty() =~= before);
        }
    } else {
        let fewer = second.drop_last();
        law_pairs_follow_the_entries(heap, first, fewer);
        assert((first + second).drop_last() =~= first + fewer);
        assert((first + second).last() == second.last());
        match (
            dict_pairs(heap, first),
            dict_pairs(heap, fewer),
            entry_pairs(heap, second.last()),
        ) {
            (Some(before), Some(middle), Some(last)) => {
                assert((before + middle) + last =~= before + (middle + last));
            },
            _ => {},
        }
    }
}

/// One entry gives no pair for `None`, one pair for a text or a byte string, and
/// one for each item of a list or tuple that is not `None`, in order: each under
/// the entry's own name.
pub proof fn law_pairs_of_one_entry(heap: Heap, entry: Pair, name: Seq<u8>, value: Seq<u8>)
    requires
        parameter_bytes(heap, entry.key) == Some(name),
    ensures
        heap.is_none_value(entry.value) ==> entry_pairs(heap, entry) == Some(
            Seq::<(Seq<u8>, Seq<u8>)>::empty(),
        ),
        !heap.is_none_value(entry.value) && parameter_bytes(heap, entry.value) == Some(value)
            ==> entry_pairs(heap, entry) == Some(seq![(name, value)]),
        entry_pairs(heap, entry) matches Some(pairs) ==> forall|index: int|
            0 <= index < pairs.len() ==> (#[trigger] pairs[index]).0 == name,
{
    match heap.elements_of(entry.value) {
        Some(values) => lemma_listed_pairs(heap, name, values),
        None => {},
    }
}

/// The items of a list that are not `None`.
pub open spec fn present(heap: Heap, values: Seq<usize>) -> Seq<usize>
    decreases values.len(),
{
    if values.len() == 0 {
        Seq::empty()
    } else if heap.is_none_value(values.last()) {
        present(heap, values.drop_last())
    } else {
        present(heap, values.drop_last()).push(values.last())
    }
}

/// A list gives one pair for each of its items that is not `None`, in order.
pub proof fn law_lists_give_a_pair_for_each_item(heap: Heap, name: Seq<u8>, values: Seq<usize>)
    ensures
        listed_pairs(heap, name, values) matches Some(pairs) ==> pairs.len() == present(
            heap,
            values,
        ).len() && forall|index: int|
            0 <= index < pairs.len() ==> (#[trigger] pairs[index]).0 == name && parameter_bytes(
                heap,
                present(heap, values)[index],
            ) == Some(pairs[index].1),
    decreases values.len(),
{
    if values.len() > 0 {
        law_lists_give_a_pair_for_each_item(heap, name, values.drop_last());
    }
}

/// Every pair of a list has the list's name.
proof fn lemma_listed_pairs(heap: Heap, name: Seq<u8>, values: Seq<usize>)
    ensures
        listed_pairs(heap, name, values) matches Some(pairs) ==> forall|index: int|
            0 <= index < pairs.len() ==> (#[trigger] pairs[index]).0 == name,
{
    law_lists_give_a_pair_for_each_item(heap, name, values);
}

/// The bytes of a parameter are its own, or those of its text as UTF-8, and are
/// not too long for the native code.
pub proof fn law_bytes_of_parameters(heap: Heap, value: usize, bytes: Seq<u8>)
    requires
        parameter_bytes(heap, value) == Some(bytes),
    ensures
        heap.is_exactly(value, heap.intrinsics.bytes) ==> heap.bytes_of(value) == Some(bytes),
        !heap.is_exactly(value, heap.intrinsics.bytes) ==> heap.is_exactly(
            value,
            heap.intrinsics.text,
        ) && (heap.text_of(value) matches Some(text) && bytes == vstd::utf8::encode_utf8(text)),
        (bytes.len() as usize) < NATIVE_LENGTH_LIMIT,
{
}

/// What URLs are prepared by has to be what it first was: the module's own names
/// of the functions, and the functions themselves.
pub proof fn law_what_urls_are_prepared_by(heap: Heap, state: ModelsState)
    ensures
        url_parse_is_trusted(heap, state) == Ok::<bool, Failure>(true) <==> {
            let models = state.remembered(Anchor::Models);
            &&& entry_is(heap, models, "parse_url"@, state.remembered(Anchor::ParseUrl))
            &&& entry_is(heap, models, "requote_uri"@, state.remembered(Anchor::RequoteUri))
            &&& entry_is(heap, models, "unicode_is_ascii"@, state.remembered(Anchor::UnicodeIsAscii))
            &&& entry_is(heap, models, "urlunparse"@, state.remembered(Anchor::UrlUnparse))
            &&& still_trusted(heap, state, Trust::ParseUrl) == Ok::<bool, Failure>(true)
            &&& still_trusted(heap, state, Trust::RequoteUri) == Ok::<bool, Failure>(true)
            &&& still_trusted(heap, state, Trust::UnicodeIsAscii) == Ok::<bool, Failure>(true)
            &&& still_trusted(heap, state, Trust::UrlUnparse) == Ok::<bool, Failure>(true)
        },
        native_string_is_trusted(heap, state) == Ok::<bool, Failure>(true) <==> {
            &&& entry_is(
                heap,
                state.remembered(Anchor::Models),
                "to_native_string"@,
                state.remembered(Anchor::ToNativeString),
            )
            &&& entry_is(
                heap,
                state.remembered(Anchor::InternalUtils),
                "builtin_str"@,
                heap.intrinsics.text,
            )
            &&& still_trusted(heap, state, Trust::ToNativeString) == Ok::<bool, Failure>(true)
        },
        url_error_is_trusted(heap, state, UrlPreparationError::MissingScheme) <==> entry_is(
            heap,
            state.remembered(Anchor::Models),
            "MissingSchema"@,
            state.remembered(Anchor::MissingSchema),
        ),
        url_error_is_trusted(heap, state, UrlPreparationError::Parse) ==> entry_is(
            heap,
            state.remembered(Anchor::Models),
            "InvalidURL"@,
            state.remembered(Anchor::InvalidUrl),
        ) && entry_is(
            heap,
            state.remembered(Anchor::Models),
            "LocationParseError"@,
            state.remembered(Anchor::LocationParseError),
        ),
{
}

} // verus!
