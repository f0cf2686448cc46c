//! Basic and digest authentication: when they are answered natively, and what
//! is asked of Python on the way.

use vstd::prelude::*;
use vstd::string::StringExecFns;

use crate::adapter_state::{exact_dict, exact_dict_of};
use crate::bridge::{store_handler_error, BridgeClosed, WorkerPayload};
use crate::errors::{begins_with, derives_from, is_subclass};
use crate::heap::{both, holds, Check, Failure, Heap, Pair};
use crate::landmarks::{
    attribute_is_of, below, below_three, below_two, check_attribute_is_of, check_expectations,
    check_nested_is, class_below, expectation_views, expected, expects, find_landmarks, in_module,
    landmark_views, nested_is, object_at, objects_at, Expectation, ExpectationView, Landmark, LandmarkView};
use crate::model_state::{is_type, type_object};
use crate::retry::{attribute_is, check_attribute_is, optional_view};
use crate::text::same_text;

verus! {

/// The objects of the authentication module as they were first met.
#[derive(Clone, Copy, Debug, PartialEq, Eq, Structural)]
pub struct AuthState {
    pub module: usize,
    pub basic_function: usize,
    pub to_native_string: usize,
    pub warnings: usize,
    pub basic_type: usize,
    pub proxy_type: usize,
    pub digest_type: usize,
    pub hashlib: usize,
    pub md5: usize,
    pub sha1: usize,
    pub sha256: usize,
    pub sha512: usize,
    pub response_type: usize,
    pub prepared_request_type: usize,
    pub cookie_jar_type: usize,
    pub header_type: usize,
    pub basic_code: usize,
    pub basestring: usize,
    pub compat_str: usize,
    pub b64encode: usize,
    pub to_native_string_code: usize,
    pub warn: usize,
    pub basic_call: usize,
    pub proxy_call: usize,
    pub digest_build_code: usize,
    pub digest_401_code: usize,
    pub os: usize,
    pub time: usize,
    pub urlparse: usize,
    pub extract_cookies_to_jar: usize,
    pub parse_dict_header: usize,
    pub re: usize,
    pub response_content: usize,
    pub response_close: usize,
    pub prepared_copy: usize,
    pub prepared_cookies: usize,
}

/// Where the objects are found, in the order in which they are looked up.
pub open spec fn auth_landmarks() -> Seq<LandmarkView> {
    seq![
        in_module("requests.auth"@),
        below("requests.auth"@, "_basic_auth_str"@),
        below("requests.auth"@, "to_native_string"@),
        below("requests.auth"@, "warnings"@),
        class_below("requests.auth"@, "HTTPBasicAuth"@),
        class_below("requests.auth"@, "HTTPProxyAuth"@),
        class_below("requests.auth"@, "HTTPDigestAuth"@),
        below_two("requests.auth"@, "HTTPDigestAuth"@, "build_digest_header"@),
        below_two("requests.auth"@, "HTTPDigestAuth"@, "handle_401"@),
        below("requests.auth"@, "hashlib"@),
        below_two("requests.auth"@, "hashlib"@, "md5"@),
        below_two("requests.auth"@, "hashlib"@, "sha1"@),
        below_two("requests.auth"@, "hashlib"@, "sha256"@),
        below_two("requests.auth"@, "hashlib"@, "sha512"@),
        in_module("requests.models"@),
        in_module("requests.cookies"@),
        in_module("requests.structures"@),
        class_below("requests.models"@, "Response"@),
        class_below("requests.models"@, "PreparedRequest"@),
        class_below("requests.cookies"@, "RequestsCookieJar"@),
        class_below("requests.structures"@, "CaseInsensitiveDict"@),
        below_two("requests.auth"@, "_basic_auth_str"@, "__code__"@),
        below("requests.auth"@, "basestring"@),
        below("requests.auth"@, "str"@),
        below("requests.auth"@, "b64encode"@),
        below_two("requests.auth"@, "to_native_string"@, "__code__"@),
        below_two("requests.auth"@, "warnings"@, "warn"@),
        below_two("requests.auth"@, "HTTPBasicAuth"@, "__call__"@),
        below_two("requests.auth"@, "HTTPProxyAuth"@, "__call__"@),
        below_three("requests.auth"@, "HTTPDigestAuth"@, "build_digest_header"@, "__code__"@),
        below_three("requests.auth"@, "HTTPDigestAuth"@, "handle_401"@, "__code__"@),
        below("requests.auth"@, "os"@),
        below("requests.auth"@, "time"@),
        below("requests.auth"@, "urlparse"@),
        below("requests.auth"@, "extract_cookies_to_jar"@),
        below("requests.auth"@, "parse_dict_header"@),
        below("requests.auth"@, "re"@),
        below_two("requests.models"@, "Response"@, "content"@),
        below_two("requests.models"@, "Response"@, "close"@),
        below_two("requests.models"@, "PreparedRequest"@, "copy"@),
        below_two("requests.models"@, "PreparedRequest"@, "prepare_cookies"@),
    ]
}

/// Where the objects are found.
fn landmark_list() -> (landmarks: Vec<Landmark>)
    ensures
        landmark_views(landmarks@) == auth_landmarks(),
{
    let landmarks: Vec<Landmark> = vec![
        Landmark::module("requests.auth"),
        Landmark::name("requests.auth", "_basic_auth_str"),
        Landmark::name("requests.auth", "to_native_string"),
        Landmark::name("requests.auth", "warnings"),
        Landmark::class("requests.auth", "HTTPBasicAuth"),
        Landmark::class("requests.auth", "HTTPProxyAuth"),
        Landmark::class("requests.auth", "HTTPDigestAuth"),
        Landmark::two("requests.auth", "HTTPDigestAuth", "build_digest_header"),
        Landmark::two("requests.auth", "HTTPDigestAuth", "handle_401"),
        Landmark::name("requests.auth", "hashlib"),
        Landmark::two("requests.auth", "hashlib", "md5"),
        Landmark::two("requests.auth", "hashlib", "sha1"),
        Landmark::two("requests.auth", "hashlib", "sha256"),
        Landmark::two("requests.auth", "hashlib", "sha512"),
        Landmark::module("requests.models"),
        Landmark::module("requests.cookies"),
        Landmark::module("requests.structures"),
        Landmark::class("requests.models", "Response"),
        Landmark::class("requests.models", "PreparedRequest"),
        Landmark::class("requests.cookies", "RequestsCookieJar"),
        Landmark::class("requests.structures", "CaseInsensitiveDict"),
        Landmark::two("requests.auth", "_basic_auth_str", "__code__"),
        Landmark::name("requests.auth", "basestring"),
        Landmark::name("requests.auth", "str"),
        Landmark::name("requests.auth", "b64encode"),
        Landmark::two("requests.auth", "to_native_string", "__code__"),
        Landmark::two("requests.auth", "warnings", "warn"),
        Landmark::two("requests.auth", "HTTPBasicAuth", "__call__"),
        Landmark::two("requests.auth", "HTTPProxyAuth", "__call__"),
        Landmark::three("requests.auth", "HTTPDigestAuth", "build_digest_header", "__code__"),
        Landmark::three("requests.auth", "HTTPDigestAuth", "handle_401", "__code__"),
        Landmark::name("requests.auth", "os"),
        Landmark::name("requests.auth", "time"),
        Landmark::name("requests.auth", "urlparse"),
        Landmark::name("requests.auth", "extract_cookies_to_jar"),
        Landmark::name("requests.auth", "parse_dict_header"),
        Landmark::name("requests.auth", "re"),
        Landmark::two("requests.models", "Response", "content"),
        Landmark::two("requests.models", "Response", "close"),
        Landmark::two("requests.models", "PreparedRequest", "copy"),
        Landmark::two("requests.models", "PreparedRequest", "prepare_cookies"),
    ];
    assert(landmark_views(landmarks@) =~= auth_landmarks());
    landmarks
}

/// The objects as they are first met, or why one of them is missing.
pub open spec fn auth_state_of(heap: Heap) -> Result<AuthState, Failure> {
    match objects_at(heap, auth_landmarks()) {
        Err(failure) => Err(failure),
        Ok(objects) => Ok(
            AuthState {
                module: objects[0],
                basic_function: objects[1],
                to_native_string: objects[2],
                warnings: objects[3],
                basic_type: objects[4],
                proxy_type: objects[5],
                digest_type: objects[6],
                hashlib: objects[9],
                md5: objects[10],
                sha1: objects[11],
                sha256: objects[12],
                sha512: objects[13],
                response_type: objects[17],
                prepared_request_type: objects[18],
                cookie_jar_type: objects[19],
                header_type: objects[20],
                basic_code: objects[21],
                basestring: objects[22],
                compat_str: objects[23],
                b64encode: objects[24],
                to_native_string_code: objects[25],
                warn: objects[26],
                basic_call: objects[27],
                proxy_call: objects[28],
                digest_build_code: objects[29],
                digest_401_code: objects[30],
                os: objects[31],
                time: objects[32],
                urlparse: objects[33],
                extract_cookies_to_jar: objects[34],
                parse_dict_header: objects[35],
                re: objects[36],
                response_content: objects[37],
                response_close: objects[38],
                prepared_copy: objects[39],
                prepared_cookies: objects[40],
            },
        ),
    }
}

/// Remembers the objects.
pub fn initialize_auth_state(heap: &Heap) -> (state: Result<AuthState, Failure>)
    ensures
        state == auth_state_of(*heap),
{
    let landmarks = landmark_list();
    assert(landmarks@.len() == 41) by {
        assert(landmark_views(landmarks@).len() == auth_landmarks().len());
    }
    match find_landmarks(heap, &landmarks) {
        Err(failure) => Err(failure),
        Ok(objects) => Ok(
            AuthState {
                module: objects[0],
                basic_function: objects[1],
                to_native_string: objects[2],
                warnings: objects[3],
                basic_type: objects[4],
                proxy_type: objects[5],
                digest_type: objects[6],
                hashlib: objects[9],
                md5: objects[10],
                sha1: objects[11],
                sha256: objects[12],
                sha512: objects[13],
                response_type: objects[17],
                prepared_request_type: objects[18],
                cookie_jar_type: objects[19],
                header_type: objects[20],
                basic_code: objects[21],
                basestring: objects[22],
                compat_str: objects[23],
                b64encode: objects[24],
                to_native_string_code: objects[25],
                warn: objects[26],
                basic_call: objects[27],
                proxy_call: objects[28],
                digest_build_code: objects[29],
                digest_401_code: objects[30],
                os: objects[31],
                time: objects[32],
                urlparse: objects[33],
                extract_cookies_to_jar: objects[34],
                parse_dict_header: objects[35],
                re: objects[36],
                response_content: objects[37],
                response_close: objects[38],
                prepared_copy: objects[39],
                prepared_cookies: objects[40],
            },
        ),
    }
}

/// What basic authentication leans on.
pub open spec fn basic_expectations(state: AuthState) -> Seq<ExpectationView> {
    seq![
        expects(state.module, "_basic_auth_str"@, state.basic_function),
        expects(state.basic_function, "__code__"@, state.basic_code),
        expects(state.module, "basestring"@, state.basestring),
        expects(state.module, "str"@, state.compat_str),
        expects(state.module, "b64encode"@, state.b64encode),
        expects(state.module, "to_native_string"@, state.to_native_string),
        expects(state.module, "warnings"@, state.warnings),
        expects(state.to_native_string, "__code__"@, state.to_native_string_code),
        expects(state.warnings, "warn"@, state.warn),
    ]
}

/// Checks what basic authentication leans on.
fn check_basic(heap: &Heap, state: &AuthState) -> (check: Check)
    ensures
        check == expected(*heap, basic_expectations(*state)),
{
    let expectations: Vec<Expectation> = vec![
        Expectation::new(state.module, "_basic_auth_str", state.basic_function),
        Expectation::new(state.basic_function, "__code__", state.basic_code),
        Expectation::new(state.module, "basestring", state.basestring),
        Expectation::new(state.module, "str", state.compat_str),
        Expectation::new(state.module, "b64encode", state.b64encode),
        Expectation::new(state.module, "to_native_string", state.to_native_string),
        Expectation::new(state.module, "warnings", state.warnings),
        Expectation::new(state.to_native_string, "__code__", state.to_native_string_code),
        Expectation::new(state.warnings, "warn", state.warn),
    ];
    assert(expectation_views(expectations@) =~= basic_expectations(*state));
    check_expectations(heap, &expectations)
}

/// Whether basic authentication is still what was met first.
pub fn basic_is_pristine(heap: &Heap, state: &AuthState) -> (check: Check)
    ensures
        check == expected(*heap, basic_expectations(*state)),
{
    check_basic(heap, state)
}

/// Whether a value is of a subclass of the text or bytes type.
pub open spec fn subclasses_text_or_bytes(heap: Heap, value: usize) -> bool {
    &&& !heap.is_exactly(value, heap.intrinsics.text)
    &&& !heap.is_exactly(value, heap.intrinsics.bytes)
    &&& match heap.at(value) {
        Some(found) => derives_from(heap, found.class, heap.intrinsics.text) || derives_from(
            heap,
            found.class,
            heap.intrinsics.bytes,
        ),
        None => false,
    }
}

/// Whether a value is of a subclass of the text or bytes type.
pub fn is_non_exact_string_or_bytes_subclass(heap: &Heap, value: usize) -> (yes: bool)
    ensures
        yes == subclasses_text_or_bytes(*heap, value),
{
    if heap.exactly(value, heap.intrinsics.text) || heap.exactly(value, heap.intrinsics.bytes) {
        return false;
    }
    match heap.get(value) {
        Some(found) => is_subclass(heap, found.class, heap.intrinsics.text) || is_subclass(
            heap,
            found.class,
            heap.intrinsics.bytes,
        ),
        None => false,
    }
}

/// Who answers.
#[derive(Clone, Copy, Debug, PartialEq, Eq, Structural)]
pub enum BasicPlan {
    Native,
    /// Python's own code.
    Fallback,
}

/// Who builds a basic authorization value.
pub open spec fn basic_plan(heap: Heap, state: AuthState, username: usize, password: usize) -> BasicPlan {
    if holds(expected(heap, basic_expectations(state))) && !subclasses_text_or_bytes(heap, username)
        && !subclasses_text_or_bytes(heap, password) {
        BasicPlan::Native
    } else {
        BasicPlan::Fallback
    }
}

/// Who builds a basic authorization value.
pub fn basic_auth_trial(heap: &Heap, state: &AuthState, username: usize, password: usize) -> (plan:
    BasicPlan)
    ensures
        plan == basic_plan(*heap, *state, username, password),
{
    match basic_is_pristine(heap, state) {
        Ok(true) => {},
        _ => {
            return BasicPlan::Fallback;
        },
    }
    if is_non_exact_string_or_bytes_subclass(heap, username)
        || is_non_exact_string_or_bytes_subclass(heap, password) {
        BasicPlan::Fallback
    } else {
        BasicPlan::Native
    }
}

/// The class that applies basic authentication.
pub open spec fn basic_class(proxy: bool) -> Seq<char> {
    if proxy {
        "HTTPProxyAuth"@
    } else {
        "HTTPBasicAuth"@
    }
}

/// The name of the class that applies basic authentication.
pub fn basic_class_name(proxy: bool) -> (name: &'static str)
    ensures
        name@ == basic_class(proxy),
{
    if proxy {
        "HTTPProxyAuth"
    } else {
        "HTTPBasicAuth"
    }
}

/// The header that basic authentication sets.
pub open spec fn basic_header(proxy: bool) -> Seq<char> {
    if proxy {
        "Proxy-Authorization"@
    } else {
        "Authorization"@
    }
}

/// The name of the header that basic authentication sets.
pub fn basic_header_name(proxy: bool) -> (name: &'static str)
    ensures
        name@ == basic_header(proxy),
{
    if proxy {
        "Proxy-Authorization"
    } else {
        "Authorization"
    }
}

/// Whether the class that applies basic authentication is the one met first.
pub open spec fn apply_pristine(heap: Heap, state: AuthState, proxy: bool) -> Check {
    match heap.attribute_of(state.module, basic_class(proxy)) {
        None => Err(Failure::Attribute),
        Some(live) => if !is_type(heap, live) {
            Err(Failure::Kind)
        } else if proxy {
            both(
                Ok(live == state.proxy_type),
                attribute_is(heap, live, "__call__"@, state.proxy_call),
            )
        } else {
            both(
                Ok(live == state.basic_type),
                attribute_is(heap, live, "__call__"@, state.basic_call),
            )
        },
    }
}

/// Whether the class that applies basic authentication is the one met first.
pub fn apply_is_pristine(heap: &Heap, state: &AuthState, proxy: bool) -> (check: Check)
    ensures
        check == apply_pristine(*heap, *state, proxy),
{
    let live = match heap.attribute(state.module, basic_class_name(proxy)) {
        Some(live) => live,
        None => {
            return Err(Failure::Attribute);
        },
    };
    if !type_object(heap, live) {
        return Err(Failure::Kind);
    }
    let (class, call) = if proxy {
        (state.proxy_type, state.proxy_call)
    } else {
        (state.basic_type, state.basic_call)
    };
    if live != class {
        return Ok(false);
    }
    check_attribute_is(heap, live, "__call__", call)
}

/// Who applies basic authentication to a request.
pub open spec fn apply_plan(
    heap: Heap,
    state: AuthState,
    username: usize,
    password: usize,
    proxy: bool,
) -> BasicPlan {
    if holds(apply_pristine(heap, state, proxy)) {
        basic_plan(heap, state, username, password)
    } else {
        BasicPlan::Fallback
    }
}

/// Who applies basic authentication to a request.
pub fn basic_auth_apply_trial(
    heap: &Heap,
    state: &AuthState,
    username: usize,
    password: usize,
    proxy: bool,
) -> (plan: BasicPlan)
    ensures
        plan == apply_plan(*heap, *state, username, password, proxy),
{
    match apply_is_pristine(heap, state, proxy) {
        Ok(true) => basic_auth_trial(heap, state, username, password),
        _ => BasicPlan::Fallback,
    }
}

/// The warning about a credential that is neither text nor bytes.
pub open spec fn credential_warning(username: bool, shown: Seq<char>) -> Seq<char> {
    (if username {
        "Non-string usernames will no longer be supported in Requests 3.0.0. Please convert the object you've passed in ("@
    } else {
        "Non-string passwords will no longer be supported in Requests 3.0.0. Please convert the object you've passed in ("@
    }) + shown
        + ") to a string or bytes object in the near future to avoid problems."@
}

/// The warning about a credential that is neither text nor bytes. A username is
/// shown itself, a password by its type.
pub fn credential_warning_message(username: bool, shown: &str) -> (text: String)
    ensures
        text@ == credential_warning(username, shown@),
{
    let mut text = if username {
        String::from_str(
            "Non-string usernames will no longer be supported in Requests 3.0.0. Please convert the object you've passed in (",
        )
    } else {
        String::from_str(
            "Non-string passwords will no longer be supported in Requests 3.0.0. Please convert the object you've passed in (",
        )
    };
    text.append(shown);
    text.append(") to a string or bytes object in the near future to avoid problems.");
    text
}

/// What a value is, as far as a credential is concerned.
#[derive(Clone, Copy, Debug, PartialEq, Eq, Structural)]
pub enum CredentialKind {
    Text,
    Bytes,
    Other,
}

/// What a credential is to undergo next.
#[derive(Clone, Copy, Debug, PartialEq, Eq, Structural)]
pub enum CredentialStep {
    /// A deprecation warning is to be issued.
    Warn,
    /// The value is to be turned into a text.
    Convert,
    /// The text is to be encoded as latin-1.
    Encode,
    /// The value is bytes, and is taken.
    Take,
    /// The value is not bytes: an error of its type.
    Refuse,
}

/// What a value is to undergo, now that it counts as a credential.
pub open spec fn settled(kind: CredentialKind) -> CredentialStep {
    match kind {
        CredentialKind::Text => CredentialStep::Encode,
        CredentialKind::Bytes => CredentialStep::Take,
        CredentialKind::Other => CredentialStep::Refuse,
    }
}

/// What a credential is to undergo first.
pub open spec fn credential_first(is_basestring: bool, kind: CredentialKind) -> CredentialStep {
    if is_basestring {
        settled(kind)
    } else {
        CredentialStep::Warn
    }
}

/// What a credential is to undergo after a step that left a value of a kind.
pub open spec fn credential_after(step: CredentialStep, kind: CredentialKind) -> CredentialStep {
    match step {
        CredentialStep::Warn => CredentialStep::Convert,
        CredentialStep::Convert => settled(kind),
        CredentialStep::Encode => if kind == CredentialKind::Bytes {
            CredentialStep::Take
        } else {
            CredentialStep::Refuse
        },
        _ => step,
    }
}

/// What a value is to undergo, now that it counts as a credential.
fn settle(kind: CredentialKind) -> (step: CredentialStep)
    ensures
        step == settled(kind),
{
    match kind {
        CredentialKind::Text => CredentialStep::Encode,
        CredentialKind::Bytes => CredentialStep::Take,
        CredentialKind::Other => CredentialStep::Refuse,
    }
}

/// What a credential is to undergo first.
pub fn coerce_credential(is_basestring: bool, kind: CredentialKind) -> (step: CredentialStep)
    ensures
        step == credential_first(is_basestring, kind),
{
    if is_basestring {
        settle(kind)
    } else {
        CredentialStep::Warn
    }
}

/// What a credential is to undergo after a step that left a value of a kind.
pub fn coerce_credential_after(step: CredentialStep, kind: CredentialKind) -> (next: CredentialStep)
    ensures
        next == credential_after(step, kind),
{
    match step {
        CredentialStep::Warn => CredentialStep::Convert,
        CredentialStep::Convert => settle(kind),
        CredentialStep::Encode => match kind {
            CredentialKind::Bytes => CredentialStep::Take,
            _ => CredentialStep::Refuse,
        },
        other => other,
    }
}

/// A credential that already is text or bytes is never warned about, and is
/// taken once a text among them has been encoded.
pub proof fn law_text_and_bytes_raise_no_warning(kind: CredentialKind)
    requires
        kind != CredentialKind::Other,
    ensures
        credential_first(true, kind) != CredentialStep::Warn,
        credential_after(credential_first(true, kind), CredentialKind::Bytes)
            == CredentialStep::Take,
{
}

/// What digest authentication leans on.
pub open spec fn digest_expectations(state: AuthState) -> Seq<ExpectationView> {
    seq![
        expects(state.module, "hashlib"@, state.hashlib),
        expects(state.module, "os"@, state.os),
        expects(state.module, "time"@, state.time),
        expects(state.module, "urlparse"@, state.urlparse),
        expects(state.module, "str"@, state.compat_str),
        expects(state.hashlib, "md5"@, state.md5),
        expects(state.hashlib, "sha1"@, state.sha1),
        expects(state.hashlib, "sha256"@, state.sha256),
        expects(state.hashlib, "sha512"@, state.sha512),
    ]
}

/// Checks what digest authentication leans on.
fn check_digest(heap: &Heap, state: &AuthState) -> (check: Check)
    ensures
        check == expected(*heap, digest_expectations(*state)),
{
    let expectations: Vec<Expectation> = vec![
        Expectation::new(state.module, "hashlib", state.hashlib),
        Expectation::new(state.module, "os", state.os),
        Expectation::new(state.module, "time", state.time),
        Expectation::new(state.module, "urlparse", state.urlparse),
        Expectation::new(state.module, "str", state.compat_str),
        Expectation::new(state.hashlib, "md5", state.md5),
        Expectation::new(state.hashlib, "sha1", state.sha1),
        Expectation::new(state.hashlib, "sha256", state.sha256),
        Expectation::new(state.hashlib, "sha512", state.sha512),
    ];
    assert(expectation_views(expectations@) =~= digest_expectations(*state));
    check_expectations(heap, &expectations)
}

/// Whether a digest object and its surroundings are still what was met first.
pub open spec fn digest_pristine(heap: Heap, state: AuthState, subject: usize) -> Check {
    both(
        Ok(heap.is_exactly(subject, state.digest_type)),
        both(
            expected(heap, digest_expectations(state)),
            nested_is(
                heap,
                state.digest_type,
                "build_digest_header"@,
                "__code__"@,
                state.digest_build_code,
            ),
        ),
    )
}

/// Whether a digest object and its surroundings are still what was met first.
pub fn digest_is_pristine(heap: &Heap, state: &AuthState, subject: usize) -> (check: Check)
    ensures
        check == digest_pristine(*heap, *state, subject),
{
    if !heap.exactly(subject, state.digest_type) {
        return Ok(false);
    }
    match check_digest(heap, state) {
        Ok(true) => {},
        other => {
            return other;
        },
    }
    check_nested_is(
        heap,
        state.digest_type,
        "build_digest_header",
        "__code__",
        state.digest_build_code,
    )
}

/// Why a digest header is not built natively.
#[derive(Clone, Copy, Debug, PartialEq, Eq, Structural)]
pub enum DigestStop {
    /// Python's own code is to build it.
    Fallback,
    /// The challenge has no realm.
    MissingRealm,
    /// The challenge has no nonce.
    MissingNonce,
    /// The realm or the nonce is not an exact text.
    NotText,
    /// Python raised an error.
    Failed(Failure),
}

impl DigestStop {
    /// What the raised error carries, where it is one of the library's own.
    pub open spec fn words(self) -> Option<Seq<char>> {
        match self {
            DigestStop::MissingRealm => Some("realm"@),
            DigestStop::MissingNonce => Some("nonce"@),
            DigestStop::NotText => Some("digest trial requires exact string challenge values"@),
            _ => None,
        }
    }

    /// What the raised error carries, where it is one of the library's own.
    pub fn message(&self) -> (text: Option<String>)
        ensures
            optional_view(text) == self.words(),
    {
        match self {
            DigestStop::MissingRealm => Some(String::from_str("realm")),
            DigestStop::MissingNonce => Some(String::from_str("nonce")),
            DigestStop::NotText => Some(
                String::from_str("digest trial requires exact string challenge values"),
            ),
            _ => None,
        }
    }
}

/// The characters of a value, where it is an exact text. A text that cannot be
/// encoded is an error.
pub open spec fn exact_string_of(heap: Heap, value: usize) -> Result<Option<Seq<char>>, Failure> {
    if heap.is_exactly(value, heap.intrinsics.text) {
        match heap.text_of(value) {
            Some(text) => Ok(Some(text)),
            None => Err(Failure::Kind),
        }
    } else {
        Ok(None)
    }
}

/// The characters of a value, where it is an exact text.
pub fn exact_string(heap: &Heap, value: usize) -> (text: Result<Option<String>, Failure>)
    ensures
        match text {
            Ok(text) => exact_string_of(*heap, value) == Ok::<Option<Seq<char>>, Failure>(
                optional_view(text),
            ),
            Err(failure) => exact_string_of(*heap, value) == Err::<Option<Seq<char>>, Failure>(
                failure,
            ),
        },
{
    if heap.exactly(value, heap.intrinsics.text) {
        match heap.text(value) {
            Some(text) => Ok(Some(String::from_str(text.as_str()))),
            None => Err(Failure::Kind),
        }
    } else {
        Ok(None)
    }
}

/// The characters of a value that has to be an exact text.
pub open spec fn needed_string(heap: Heap, value: usize) -> Result<Seq<char>, DigestStop> {
    match exact_string_of(heap, value) {
        Err(failure) => Err(DigestStop::Failed(failure)),
        Ok(None) => Err(DigestStop::Fallback),
        Ok(Some(text)) => Ok(text),
    }
}

/// The characters of a value that has to be an exact text.
fn need_string(heap: &Heap, value: usize) -> (text: Result<String, DigestStop>)
    ensures
        match text {
            Ok(text) => needed_string(*heap, value) == Ok::<Seq<char>, DigestStop>(text@),
            Err(stop) => needed_string(*heap, value) == Err::<Seq<char>, DigestStop>(stop),
        },
{
    match exact_string(heap, value) {
        Err(failure) => Err(DigestStop::Failed(failure)),
        Ok(None) => Err(DigestStop::Fallback),
        Ok(Some(text)) => Ok(text),
    }
}

/// The characters of an attribute that has to be an exact text.
pub open spec fn needed_attribute(heap: Heap, object: usize, name: Seq<char>) -> Result<
    Seq<char>,
    DigestStop,
> {
    match heap.attribute_of(object, name) {
        None => Err(DigestStop::Failed(Failure::Attribute)),
        Some(value) => needed_string(heap, value),
    }
}

/// The characters of an attribute that has to be an exact text.
fn need_attribute(heap: &Heap, object: usize, name: &str) -> (text: Result<String, DigestStop>)
    ensures
        match text {
            Ok(text) => needed_attribute(*heap, object, name@) == Ok::<Seq<char>, DigestStop>(text@),
            Err(stop) => needed_attribute(*heap, object, name@) == Err::<Seq<char>, DigestStop>(
                stop,
            ),
        },
{
    match heap.attribute(object, name) {
        None => Err(DigestStop::Failed(Failure::Attribute)),
        Some(value) => need_string(heap, value),
    }
}

/// A part of the challenge that has to be there.
pub open spec fn required_part(
    heap: Heap,
    challenge: Seq<Pair>,
    name: Seq<char>,
    missing: DigestStop,
) -> Result<Seq<char>, DigestStop> {
    match heap.keyed(challenge, name) {
        None => Err(missing),
        Some(value) => match exact_string_of(heap, value) {
            Err(failure) => Err(DigestStop::Failed(failure)),
            Ok(None) => Err(DigestStop::NotText),
            Ok(Some(text)) => Ok(text),
        },
    }
}

/// A part of the challenge that has to be there.
fn required_challenge_string(
    heap: &Heap,
    challenge: &Vec<Pair>,
    name: &str,
    missing: DigestStop,
) -> (text: Result<String, DigestStop>)
    ensures
        match text {
            Ok(text) => required_part(*heap, challenge@, name@, missing) == Ok::<
                Seq<char>,
                DigestStop,
            >(text@),
            Err(stop) => required_part(*heap, challenge@, name@, missing) == Err::<
                Seq<char>,
                DigestStop,
            >(stop),
        },
{
    match heap.find_keyed(challenge, name) {
        None => Err(missing),
        Some(value) => match exact_string(heap, value) {
            Err(failure) => Err(DigestStop::Failed(failure)),
            Ok(None) => Err(DigestStop::NotText),
            Ok(Some(text)) => Ok(text),
        },
    }
}

/// A part of the challenge that may be missing or `None`.
pub open spec fn optional_part(heap: Heap, challenge: Seq<Pair>, name: Seq<char>) -> Result<
    Option<Seq<char>>,
    DigestStop,
> {
    match heap.keyed(challenge, name) {
        None => Ok(None),
        Some(value) => if heap.is_none_value(value) {
            Ok(None)
        } else {
            match needed_string(heap, value) {
                Err(stop) => Err(stop),
                Ok(text) => Ok(Some(text)),
            }
        },
    }
}

/// A part of the challenge that may be missing or `None`.
fn optional_exact_string(heap: &Heap, challenge: &Vec<Pair>, name: &str) -> (text: Result<
    Option<String>,
    DigestStop,
>)
    ensures
        match text {
            Ok(text) => optional_part(*heap, challenge@, name@) == Ok::<
                Option<Seq<char>>,
                DigestStop,
            >(optional_view(text)),
            Err(stop) => optional_part(*heap, challenge@, name@) == Err::<
                Option<Seq<char>>,
                DigestStop,
            >(stop),
        },
{
    match heap.find_keyed(challenge, name) {
        None => Ok(None),
        Some(value) => if heap.none_value(value) {
            Ok(None)
        } else {
            match need_string(heap, value) {
                Err(stop) => Err(stop),
                Ok(text) => Ok(Some(text)),
            }
        },
    }
}

/// What is asked for, and by whom.
pub struct DigestRequest {
    pub username: String,
    pub password: String,
    pub method: String,
    pub url: String,
}

/// What is asked for, and by whom.
pub struct DigestRequestView {
    pub username: Seq<char>,
    pub password: Seq<char>,
    pub method: Seq<char>,
    pub url: Seq<char>,
}

impl View for DigestRequest {
    type V = DigestRequestView;

    open spec fn view(&self) -> DigestRequestView {
        DigestRequestView {
            username: self.username@,
            password: self.password@,
            method: self.method@,
            url: self.url@,
        }
    }
}

/// What the server challenged with.
pub struct DigestChallenge {
    pub realm: String,
    pub nonce: String,
    pub qop: Option<String>,
    pub algorithm: Option<String>,
    pub opaque: Option<String>,
}

/// What the server challenged with.
pub struct DigestChallengeView {
    pub realm: Seq<char>,
    pub nonce: Seq<char>,
    pub qop: Option<Seq<char>>,
    pub algorithm: Option<Seq<char>>,
    pub opaque: Option<Seq<char>>,
}

impl View for DigestChallenge {
    type V = DigestChallengeView;

    open spec fn view(&self) -> DigestChallengeView {
        DigestChallengeView {
            realm: self.realm@,
            nonce: self.nonce@,
            qop: optional_view(self.qop),
            algorithm: optional_view(self.algorithm),
            opaque: optional_view(self.opaque),
        }
    }
}

/// The nonce that was answered last, and how often.
pub struct DigestState {
    pub last_nonce: String,
    pub nonce_count: u32,
}

/// The nonce that was answered last, and how often.
pub struct DigestStateView {
    pub last_nonce: Seq<char>,
    pub nonce_count: u32,
}

impl View for DigestState {
    type V = DigestStateView;

    open spec fn view(&self) -> DigestStateView {
        DigestStateView { last_nonce: self.last_nonce@, nonce_count: self.nonce_count }
    }
}

/// All that a digest header is built from.
pub struct DigestInput {
    pub request: DigestRequest,
    pub challenge: DigestChallenge,
    pub state: DigestState,
    /// The object that the state is written back to.
    pub thread_local: usize,
}

/// All that a digest header is built from.
pub struct DigestInputView {
    pub request: DigestRequestView,
    pub challenge: DigestChallengeView,
    pub state: DigestStateView,
    pub thread_local: usize,
}

impl View for DigestInput {
    type V = DigestInputView;

    open spec fn view(&self) -> DigestInputView {
        DigestInputView {
            request: self.request@,
            challenge: self.challenge@,
            state: self.state@,
            thread_local: self.thread_local,
        }
    }
}

/// Whether a URL is of a scheme that is answered natively.
pub open spec fn is_web_url(url: Seq<char>) -> bool {
    "http://"@.is_prefix_of(url) || "https://"@.is_prefix_of(url)
}

/// What is asked for, and by whom.
pub open spec fn digest_request_of(heap: Heap, subject: usize, method: usize, url: usize) -> Result<
    DigestRequestView,
    DigestStop,
> {
    match needed_string(heap, method) {
        Err(stop) => Err(stop),
        Ok(method) => match needed_string(heap, url) {
            Err(stop) => Err(stop),
            Ok(url) => if !is_web_url(url) {
                Err(DigestStop::Fallback)
            } else {
                match needed_attribute(heap, subject, "username"@) {
                    Err(stop) => Err(stop),
                    Ok(username) => match needed_attribute(heap, subject, "password"@) {
                        Err(stop) => Err(stop),
                        Ok(password) => Ok(
                            DigestRequestView { username, password, method, url },
                        ),
                    },
                }
            },
        },
    }
}

/// Reads what is asked for, and by whom.
fn digest_request(heap: &Heap, subject: usize, method: usize, url: usize) -> (request: Result<
    DigestRequest,
    DigestStop,
>)
    ensures
        match request {
            Ok(request) => digest_request_of(*heap, subject, method, url) == Ok::<
                DigestRequestView,
                DigestStop,
            >(request@),
            Err(stop) => digest_request_of(*heap, subject, method, url) == Err::<
                DigestRequestView,
                DigestStop,
            >(stop),
        },
{
    let method = match need_string(heap, method) {
        Ok(text) => text,
        Err(stop) => {
            return Err(stop);
        },
    };
    let url = match need_string(heap, url) {
        Ok(text) => text,
        Err(stop) => {
            return Err(stop);
        },
    };
    if !(begins_with(url.as_str(), "http://") || begins_with(url.as_str(), "https://")) {
        return Err(DigestStop::Fallback);
    }
    let username = match need_attribute(heap, subject, "username") {
        Ok(text) => text,
        Err(stop) => {
            return Err(stop);
        },
    };
    let password = match need_attribute(heap, subject, "password") {
        Ok(text) => text,
        Err(stop) => {
            return Err(stop);
        },
    };
    Ok(DigestRequest { username, password, method, url })
}

/// What a challenge says.
pub open spec fn challenge_parts(heap: Heap, challenge: Seq<Pair>) -> Result<
    DigestChallengeView,
    DigestStop,
> {
    match required_part(heap, challenge, "realm"@, DigestStop::MissingRealm) {
        Err(stop) => Err(stop),
        Ok(realm) => match required_part(heap, challenge, "nonce"@, DigestStop::MissingNonce) {
            Err(stop) => Err(stop),
            Ok(nonce) => match optional_part(heap, challenge, "qop"@) {
                Err(stop) => Err(stop),
                Ok(qop) => match optional_part(heap, challenge, "algorithm"@) {
                    Err(stop) => Err(stop),
                    Ok(algorithm) => match optional_part(heap, challenge, "opaque"@) {
                        Err(stop) => Err(stop),
                        Ok(opaque) => Ok(
                            DigestChallengeView { realm, nonce, qop, algorithm, opaque },
                        ),
                    },
                },
            },
        },
    }
}

/// What the challenge that a thread holds says.
pub open spec fn digest_challenge_of(heap: Heap, thread_local: usize) -> Result<
    DigestChallengeView,
    DigestStop,
> {
    match heap.attribute_of(thread_local, "chal"@) {
        None => Err(DigestStop::Failed(Failure::Attribute)),
        Some(value) => match exact_dict_of(heap, value) {
            None => Err(DigestStop::Fallback),
            Some(challenge) => challenge_parts(heap, challenge),
        },
    }
}

/// Reads the challenge that a thread holds.
fn digest_challenge(heap: &Heap, thread_local: usize) -> (challenge: Result<
    DigestChallenge,
    DigestStop,
>)
    ensures
        match challenge {
            Ok(challenge) => digest_challenge_of(*heap, thread_local) == Ok::<
                DigestChallengeView,
                DigestStop,
            >(challenge@),
            Err(stop) => digest_challenge_of(*heap, thread_local) == Err::<
                DigestChallengeView,
                DigestStop,
            >(stop),
        },
{
    let value = match heap.attribute(thread_local, "chal") {
        Some(value) => value,
        None => {
            return Err(DigestStop::Failed(Failure::Attribute));
        },
    };
    let challenge = match exact_dict(heap, value) {
        Some(challenge) => challenge,
        None => {
            return Err(DigestStop::Fallback);
        },
    };
    let realm = match required_challenge_string(
        heap,
        challenge,
        "realm",
        DigestStop::MissingRealm,
    ) {
        Ok(text) => text,
        Err(stop) => {
            return Err(stop);
        },
    };
    let nonce = match required_challenge_string(
        heap,
        challenge,
        "nonce",
        DigestStop::MissingNonce,
    ) {
        Ok(text) => text,
        Err(stop) => {
            return Err(stop);
        },
    };
    let qop = match optional_exact_string(heap, challenge, "qop") {
        Ok(text) => text,
        Err(stop) => {
            return Err(stop);
        },
    };
    let algorithm = match optional_exact_string(heap, challenge, "algorithm") {
        Ok(text) => text,
        Err(stop) => {
            return Err(stop);
        },
    };
    let opaque = match optional_exact_string(heap, challenge, "opaque") {
        Ok(text) => text,
        Err(stop) => {
            return Err(stop);
        },
    };
    Ok(DigestChallenge { realm, nonce, qop, algorithm, opaque })
}

/// The number that a value stands for, where it fits.
pub open spec fn count_of(heap: Heap, value: usize) -> Option<u32> {
    match heap.index_of(value) {
        Some(number) => if 0 <= number <= u32::MAX {
            Some(number as u32)
        } else {
            None
        },
        None => None,
    }
}

/// The number that a value stands for, where it fits.
pub fn count_value(heap: &Heap, value: usize) -> (count: Option<u32>)
    ensures
        count == count_of(*heap, value),
{
    match heap.index_value(value) {
        Some(number) => if 0 <= number && number <= u32::MAX as i128 {
            Some(number as u32)
        } else {
            None
        },
        None => None,
    }
}

/// The nonce that a thread answered last, and how often.
pub open spec fn digest_counters_of(heap: Heap, thread_local: usize) -> Result<
    DigestStateView,
    DigestStop,
> {
    match needed_attribute(heap, thread_local, "last_nonce"@) {
        Err(stop) => Err(stop),
        Ok(last_nonce) => match heap.attribute_of(thread_local, "nonce_count"@) {
            None => Err(DigestStop::Failed(Failure::Attribute)),
            Some(value) => if !heap.is_exactly(value, heap.intrinsics.int) {
                Err(DigestStop::Fallback)
            } else {
                match count_of(heap, value) {
                    None => Err(DigestStop::Fallback),
                    Some(nonce_count) => Ok(DigestStateView { last_nonce, nonce_count }),
                }
            },
        },
    }
}

/// Reads the nonce that a thread answered last, and how often.
fn digest_counters(heap: &Heap, thread_local: usize) -> (counters: Result<DigestState, DigestStop>)
    ensures
        match counters {
            Ok(counters) => digest_counters_of(*heap, thread_local) == Ok::<
                DigestStateView,
                DigestStop,
            >(counters@),
            Err(stop) => digest_counters_of(*heap, thread_local) == Err::<
                DigestStateView,
                DigestStop,
            >(stop),
        },
{
    let last_nonce = match need_attribute(heap, thread_local, "last_nonce") {
        Ok(text) => text,
        Err(stop) => {
            return Err(stop);
        },
    };
    match heap.attribute(thread_local, "nonce_count") {
        None => Err(DigestStop::Failed(Failure::Attribute)),
        Some(value) => if !heap.exactly(value, heap.intrinsics.int) {
            Err(DigestStop::Fallback)
        } else {
            match count_value(heap, value) {
                None => Err(DigestStop::Fallback),
                Some(nonce_count) => Ok(DigestState { last_nonce, nonce_count }),
            }
        },
    }
}

/// All that a digest header is built from, or why it is not built natively.
pub open spec fn digest_input_of(
    heap: Heap,
    state: AuthState,
    subject: usize,
    operation: Seq<char>,
    arguments: Seq<usize>,
) -> Result<DigestInputView, DigestStop> {
    if operation != "build_digest_header"@ || arguments.len() != 2 || !holds(
        digest_pristine(heap, state, subject),
    ) {
        Err(DigestStop::Fallback)
    } else {
        match digest_request_of(heap, subject, arguments[0], arguments[1]) {
            Err(stop) => Err(stop),
            Ok(request) => match heap.attribute_of(subject, "_thread_local"@) {
                None => Err(DigestStop::Failed(Failure::Attribute)),
                Some(thread_local) => match digest_challenge_of(heap, thread_local) {
                    Err(stop) => Err(stop),
                    Ok(challenge) => match digest_counters_of(heap, thread_local) {
                        Err(stop) => Err(stop),
                        Ok(state) => Ok(
                            DigestInputView { request, challenge, state, thread_local },
                        ),
                    },
                },
            },
        }
    }
}

/// Reads all that a digest header is built from.
pub fn digest_auth_trial(
    heap: &Heap,
    state: &AuthState,
    subject: usize,
    operation: &str,
    arguments: &Vec<usize>,
) -> (input: Result<DigestInput, DigestStop>)
    ensures
        match input {
            Ok(input) => digest_input_of(*heap, *state, subject, operation@, arguments@) == Ok::<
                DigestInputView,
                DigestStop,
            >(input@),
            Err(stop) => digest_input_of(*heap, *state, subject, operation@, arguments@) == Err::<
                DigestInputView,
                DigestStop,
            >(stop),
        },
        input matches Ok(input) ==> {
            &&& is_the_text(*heap, arguments@[0], input.request.method@)
            &&& is_the_text(*heap, arguments@[1], input.request.url@)
            &&& has_text(*heap, subject, "username"@, input.request.username@)
            &&& has_text(*heap, subject, "password"@, input.request.password@)
            &&& has_text(*heap, input.thread_local, "last_nonce"@, input.state.last_nonce@)
            &&& heap.attribute_of(input.thread_local, "chal"@) matches Some(value) && exact_dict_of(
                *heap,
                value,
            ) matches Some(dict) && {
                &&& stores_text(*heap, dict, "realm"@, input.challenge.realm@)
                &&& stores_text(*heap, dict, "nonce"@, input.challenge.nonce@)
                &&& may_store_text(*heap, dict, "qop"@, optional_view(input.challenge.qop))
                &&& may_store_text(
                    *heap,
                    dict,
                    "algorithm"@,
                    optional_view(input.challenge.algorithm),
                )
                &&& may_store_text(*heap, dict, "opaque"@, optional_view(input.challenge.opaque))
            }
        },
{
    proof {
        law_digest_parts_come_from_their_places(*heap, *state, subject, operation@, arguments@);
    }
    if !same_text(operation, "build_digest_header") || arguments.len() != 2 {
        return Err(DigestStop::Fallback);
    }
    match digest_is_pristine(heap, state, subject) {
        Ok(true) => {},
        _ => {
            return Err(DigestStop::Fallback);
        },
    }
    let request = match digest_request(heap, subject, arguments[0], arguments[1]) {
        Ok(request) => request,
        Err(stop) => {
            return Err(stop);
        },
    };
    let thread_local = match heap.attribute(subject, "_thread_local") {
        Some(thread_local) => thread_local,
        None => {
            return Err(DigestStop::Failed(Failure::Attribute));
        },
    };
    let challenge = match digest_challenge(heap, thread_local) {
        Ok(challenge) => challenge,
        Err(stop) => {
            return Err(stop);
        },
    };
    match digest_counters(heap, thread_local) {
        Ok(counters) => Ok(
            DigestInput { request, challenge, state: counters, thread_local },
        ),
        Err(stop) => Err(stop),
    }
}

/// Whether a value is an exact text with these characters.
pub open spec fn is_the_text(heap: Heap, value: usize, text: Seq<char>) -> bool {
    heap.is_exactly(value, heap.intrinsics.text) && heap.text_of(value) == Some(text)
}

/// Whether an object's attribute is an exact text with these characters.
pub open spec fn has_text(heap: Heap, object: usize, name: Seq<char>, text: Seq<char>) -> bool {
    heap.attribute_of(object, name) matches Some(value) && is_the_text(heap, value, text)
}

/// Whether a dict holds an exact text with these characters under a key.
pub open spec fn stores_text(heap: Heap, dict: Seq<Pair>, key: Seq<char>, text: Seq<char>) -> bool {
    heap.keyed(dict, key) matches Some(value) && is_the_text(heap, value, text)
}

/// Whether a dict holds these characters under a key, or no key or `None` where
/// there are none.
pub open spec fn may_store_text(
    heap: Heap,
    dict: Seq<Pair>,
    key: Seq<char>,
    text: Option<Seq<char>>,
) -> bool {
    match heap.keyed(dict, key) {
        None => text is None,
        Some(value) => if heap.is_none_value(value) {
            text is None
        } else {
            text matches Some(text) && is_the_text(heap, value, text)
        },
    }
}

/// Whether each part of a challenge is what the dict holds under that part's own
/// key.
pub open spec fn says_what_is_stored(
    heap: Heap,
    dict: Seq<Pair>,
    challenge: DigestChallengeView,
) -> bool {
    &&& stores_text(heap, dict, "realm"@, challenge.realm)
    &&& stores_text(heap, dict, "nonce"@, challenge.nonce)
    &&& may_store_text(heap, dict, "qop"@, challenge.qop)
    &&& may_store_text(heap, dict, "algorithm"@, challenge.algorithm)
    &&& may_store_text(heap, dict, "opaque"@, challenge.opaque)
}

/// Each part of a challenge is the text that the thread's dict holds under the
/// part's own key; `qop`, `algorithm` and `opaque` are missing exactly where the
/// dict holds no such key, or `None` under it. Whatever a dict says in this way is
/// read from it.
pub proof fn law_a_challenge_says_what_is_stored(
    heap: Heap,
    thread_local: usize,
    challenge: DigestChallengeView,
)
    ensures
        digest_challenge_of(heap, thread_local) == Ok::<DigestChallengeView, DigestStop>(challenge)
            <==> (heap.attribute_of(thread_local, "chal"@) matches Some(value) && exact_dict_of(
            heap,
            value,
        ) matches Some(dict) && says_what_is_stored(heap, dict, challenge)),
{
}

/// A digest header is built from what belongs there: the method and the URL are
/// the two arguments, in this order, the name and the password are those of the
/// digest object, the challenge is that of its thread, and so are the nonce that
/// was answered last and how often. Only a URL of the web is answered.
pub proof fn law_digest_parts_come_from_their_places(
    heap: Heap,
    state: AuthState,
    subject: usize,
    operation: Seq<char>,
    arguments: Seq<usize>,
)
    ensures
        digest_input_of(heap, state, subject, operation, arguments) matches Ok(input) ==> {
            let thread_local = input.thread_local;
            &&& operation == "build_digest_header"@
            &&& digest_pristine(heap, state, subject) == Ok::<bool, Failure>(true)
            &&& arguments.len() == 2
            &&& is_the_text(heap, arguments[0], input.request.method)
            &&& is_the_text(heap, arguments[1], input.request.url)
            &&& "http://"@.is_prefix_of(input.request.url) || "https://"@.is_prefix_of(
                input.request.url,
            )
            &&& has_text(heap, subject, "username"@, input.request.username)
            &&& has_text(heap, subject, "password"@, input.request.password)
            &&& heap.attribute_of(subject, "_thread_local"@) == Some(thread_local)
            &&& heap.attribute_of(thread_local, "chal"@) matches Some(value) && exact_dict_of(
                heap,
                value,
            ) matches Some(dict) && says_what_is_stored(heap, dict, input.challenge)
            &&& has_text(heap, thread_local, "last_nonce"@, input.state.last_nonce)
            &&& heap.attribute_of(thread_local, "nonce_count"@) matches Some(value)
                && heap.is_exactly(value, heap.intrinsics.int) && heap.index_of(value) == Some(
                input.state.nonce_count as int,
            )
        },
{
}

/// What the digest worker asks of the Python thread.
#[derive(Clone, Copy, Debug, PartialEq, Eq, Structural)]
pub enum DigestAction {
    /// The time, as Python writes it.
    Ctime,
    /// So many random bytes.
    Random { size: usize },
}

/// What the Python thread answers.
#[derive(Debug)]
pub enum DigestReply {
    Bytes(Vec<u8>),
    /// The handler met an error, which it keeps.
    Failed,
}

impl WorkerPayload for DigestAction {

}

impl WorkerPayload for DigestReply {

}

/// How many random bytes a client nonce takes.
pub const RANDOM_SIZE: usize = 8;

/// The worker that gathers what a client nonce is made of.
pub struct DigestWorker {
    /// The time, once it was answered.
    pub ctime: Option<Vec<u8>>,
}

/// What the worker does next.
#[derive(Debug)]
pub enum DigestStep {
    Request(DigestAction),
    /// The header is to be finished with the time and the random bytes.
    Finish { ctime: Vec<u8>, random: Vec<u8> },
    HandlerFailed,
    BridgeClosed(BridgeClosed),
}

impl DigestWorker {
    /// A worker that knows nothing yet.
    pub fn new() -> (worker: Self)
        ensures
            worker.ctime is None,
    {
        DigestWorker { ctime: None }
    }

    /// What is asked first.
    pub fn start(&self) -> (action: DigestAction)
        ensures
            action == DigestAction::Ctime,
    {
        DigestAction::Ctime
    }

    /// Goes on after an answer: the time comes first, then the random bytes.
    pub fn digest_worker(&mut self, reply: Result<DigestReply, BridgeClosed>) -> (step: DigestStep)
        ensures
            match reply {
                Err(closed) => step == DigestStep::BridgeClosed(closed) && *final(self) == *old(
                    self,
                ),
                Ok(DigestReply::Failed) => step is HandlerFailed && *final(self) == *old(self),
                Ok(DigestReply::Bytes(bytes)) => match old(self).ctime {
                    None => {
                        &&& step == DigestStep::Request(
                            DigestAction::Random { size: RANDOM_SIZE },
                        )
                        &&& final(self).ctime == Some(bytes)
                    },
                    Some(ctime) => {
                        &&& step == (DigestStep::Finish { ctime, random: bytes })
                        &&& final(self).ctime is None
                    },
                },
            },
    {
        match reply {
            Err(closed) => DigestStep::BridgeClosed(closed),
            Ok(DigestReply::Failed) => DigestStep::HandlerFailed,
            Ok(DigestReply::Bytes(bytes)) => match self.ctime.take() {
                None => {
                    self.ctime = Some(bytes);
                    DigestStep::Request(DigestAction::Random { size: RANDOM_SIZE })
                },
                Some(ctime) => DigestStep::Finish { ctime, random: bytes },
            },
        }
    }
}

/// What the Python thread holds while a digest header is built.
pub struct OriginDigestOwner {
    pub module: usize,
    /// The first error that an action met.
    pub handler_error: Option<usize>,
}

impl OriginDigestOwner {
    /// Answers an action: its bytes, or a failure whose error is kept if it is
    /// the first.
    pub fn answer(&mut self, result: Result<Vec<u8>, usize>) -> (reply: DigestReply)
        ensures
            final(self).module == old(self).module,
            match result {
                Ok(bytes) => reply == DigestReply::Bytes(bytes) && final(self).handler_error == old(
                    self,
                ).handler_error,
                Err(error) => reply is Failed && final(self).handler_error == (match old(
                    self,
                ).handler_error {
                    Some(first) => Some(first),
                    None => Some(error),
                }),
            },
    {
        match result {
            Ok(bytes) => DigestReply::Bytes(bytes),
            Err(error) => {
                store_handler_error(&mut self.handler_error, error);
                DigestReply::Failed
            },
        }
    }
}

/// How the worker ended.
#[derive(Clone, Copy, Debug, PartialEq, Eq, Structural)]
pub enum DigestOutcome {
    /// It finished, with or without a header.
    Complete { has_header: bool },
    HandlerFailed,
    BridgeClosed(BridgeClosed),
}

/// What the caller gets.
#[derive(Clone, Copy, Debug, PartialEq, Eq, Structural)]
pub enum DigestResult {
    /// The header; the answered nonce is to be remembered.
    Header,
    /// `None`; nothing is remembered.
    NoHeader,
    Raise(usize),
    LostError,
    Closed(BridgeClosed),
}

/// What the caller gets: the first error of an action before anything else.
pub open spec fn digest_result(handler_error: Option<usize>, outcome: DigestOutcome) -> DigestResult {
    match handler_error {
        Some(error) => DigestResult::Raise(error),
        None => match outcome {
            DigestOutcome::Complete { has_header } => if has_header {
                DigestResult::Header
            } else {
                DigestResult::NoHeader
            },
            DigestOutcome::HandlerFailed => DigestResult::LostError,
            DigestOutcome::BridgeClosed(closed) => DigestResult::Closed(closed),
        },
    }
}

impl OriginDigestOwner {
    /// What the caller gets.
    pub fn finish(&self, outcome: DigestOutcome) -> (result: DigestResult)
        ensures
            result == digest_result(self.handler_error, outcome),
    {
        match self.handler_error {
            Some(error) => DigestResult::Raise(error),
            None => match outcome {
                DigestOutcome::Complete { has_header } => if has_header {
                    DigestResult::Header
                } else {
                    DigestResult::NoHeader
                },
                DigestOutcome::HandlerFailed => DigestResult::LostError,
                DigestOutcome::BridgeClosed(closed) => DigestResult::Closed(closed),
            },
        }
    }
}

impl DigestResult {
    /// The message of a failure of the library's own.
    pub open spec fn words(self) -> Option<Seq<char>> {
        match self {
            DigestResult::LostError => Some(
                "digest callback failed without preserving its Python exception"@,
            ),
            DigestResult::Closed(closed) => Some(closed.words()),
            _ => None,
        }
    }

    /// The message of a failure of the library's own.
    pub fn message(&self) -> (text: Option<String>)
        ensures
            optional_view(text) == self.words(),
    {
        match self {
            DigestResult::LostError => Some(
                String::from_str("digest callback failed without preserving its Python exception"),
            ),
            DigestResult::Closed(closed) => Some(closed.message()),
            _ => None,
        }
    }
}

/// What a resent request leans on.
pub open spec fn resend_expectations(state: AuthState) -> Seq<ExpectationView> {
    seq![
        expects(state.module, "extract_cookies_to_jar"@, state.extract_cookies_to_jar),
        expects(state.module, "parse_dict_header"@, state.parse_dict_header),
        expects(state.module, "re"@, state.re),
        expects(state.response_type, "content"@, state.response_content),
        expects(state.response_type, "close"@, state.response_close),
        expects(state.prepared_request_type, "copy"@, state.prepared_copy),
        expects(state.prepared_request_type, "prepare_cookies"@, state.prepared_cookies),
    ]
}

/// Checks what a resent request leans on.
fn check_resend(heap: &Heap, state: &AuthState) -> (check: Check)
    ensures
        check == expected(*heap, resend_expectations(*state)),
{
    let expectations: Vec<Expectation> = vec![
        Expectation::new(state.module, "extract_cookies_to_jar", state.extract_cookies_to_jar),
        Expectation::new(state.module, "parse_dict_header", state.parse_dict_header),
        Expectation::new(state.module, "re", state.re),
        Expectation::new(state.response_type, "content", state.response_content),
        Expectation::new(state.response_type, "close", state.response_close),
        Expectation::new(state.prepared_request_type, "copy", state.prepared_copy),
        Expectation::new(state.prepared_request_type, "prepare_cookies", state.prepared_cookies),
    ];
    assert(expectation_views(expectations@) =~= resend_expectations(*state));
    check_expectations(heap, &expectations)
}

/// Whether the request of a response is of the classes met first.
pub open spec fn resent_request_pristine(heap: Heap, state: AuthState, response: usize) -> Check {
    match heap.attribute_of(response, "request"@) {
        None => Err(Failure::Attribute),
        Some(request) => both(
            Ok(heap.is_exactly(request, state.prepared_request_type)),
            both(
                attribute_is_of(heap, response, "headers"@, state.header_type),
                both(
                    attribute_is_of(heap, request, "headers"@, state.header_type),
                    attribute_is_of(heap, request, "_cookies"@, state.cookie_jar_type),
                ),
            ),
        ),
    }
}

/// Whether the code that answers a challenge is the one met first.
pub open spec fn resend_code_pristine(heap: Heap, state: AuthState) -> Check {
    match heap.attribute_of(state.module, "HTTPDigestAuth"@) {
        None => Err(Failure::Attribute),
        Some(class) => nested_is(heap, class, "handle_401"@, "__code__"@, state.digest_401_code),
    }
}

/// Whether a challenged response can be answered natively.
pub open spec fn digest_401_pristine(
    heap: Heap,
    state: AuthState,
    subject: usize,
    response: usize,
) -> Check {
    both(
        digest_pristine(heap, state, subject),
        both(
            Ok(heap.is_exactly(response, state.response_type)),
            both(
                resend_code_pristine(heap, state),
                both(
                    expected(heap, resend_expectations(state)),
                    resent_request_pristine(heap, state, response),
                ),
            ),
        ),
    )
}

/// Whether a challenged response can be answered natively.
pub fn digest_401_is_pristine(heap: &Heap, state: &AuthState, subject: usize, response: usize) -> (
    check: Check)
    ensures
        check == digest_401_pristine(*heap, *state, subject, response),
{
    match digest_is_pristine(heap, state, subject) {
        Ok(true) => {},
        other => {
            return other;
        },
    }
    if !heap.exactly(response, state.response_type) {
        return Ok(false);
    }
    let class = match heap.attribute(state.module, "HTTPDigestAuth") {
        Some(class) => class,
        None => {
            return Err(Failure::Attribute);
        },
    };
    match check_nested_is(heap, class, "handle_401", "__code__", state.digest_401_code) {
        Ok(true) => {},
        other => {
            return other;
        },
    }
    match check_resend(heap, state) {
        Ok(true) => {},
        other => {
            return other;
        },
    }
    let request = match heap.attribute(response, "request") {
        Some(request) => request,
        None => {
            return Err(Failure::Attribute);
        },
    };
    if !heap.exactly(request, state.prepared_request_type) {
        return Ok(false);
    }
    match check_attribute_is_of(heap, response, "headers", state.header_type) {
        Ok(true) => {},
        other => {
            return other;
        },
    }
    match check_attribute_is_of(heap, request, "headers", state.header_type) {
        Ok(true) => {},
        other => {
            return other;
        },
    }
    check_attribute_is_of(heap, request, "_cookies", state.cookie_jar_type)
}

/// Whether a status is the one that challenges; no answer where the number is
/// too large to be read.
pub open spec fn is_challenge_status(heap: Heap, status: usize) -> Check {
    if !heap.is_exactly(status, heap.intrinsics.int) {
        Ok(false)
    } else {
        match heap.int_of(status) {
            Some(number) => if i64::MIN <= number <= i64::MAX {
                Ok(number == 401)
            } else {
                Err(Failure::Kind)
            },
            None => Err(Failure::Kind),
        }
    }
}

/// Whether a status is the one that challenges.
fn check_challenge_status(heap: &Heap, status: usize) -> (check: Check)
    ensures
        check == is_challenge_status(*heap, status),
{
    if !heap.exactly(status, heap.intrinsics.int) {
        return Ok(false);
    }
    match heap.int_value(status) {
        Some(number) => if i64::MIN as i128 <= number && number <= i64::MAX as i128 {
            Ok(number == 401)
        } else {
            Err(Failure::Kind)
        },
        None => Err(Failure::Kind),
    }
}

/// How many challenges in a row a thread has met, where its response is
/// answered natively.
pub open spec fn digest_401_input(
    heap: Heap,
    state: AuthState,
    subject: usize,
    response: usize,
) -> Result<u32, DigestStop> {
    if !holds(digest_401_pristine(heap, state, subject, response)) {
        Err(DigestStop::Fallback)
    } else {
        match heap.attribute_of(response, "status_code"@) {
            None => Err(DigestStop::Failed(Failure::Attribute)),
            Some(status) => match is_challenge_status(heap, status) {
                Err(failure) => Err(DigestStop::Failed(failure)),
                Ok(false) => Err(DigestStop::Fallback),
                Ok(true) => match heap.attribute_of(subject, "_thread_local"@) {
                    None => Err(DigestStop::Failed(Failure::Attribute)),
                    Some(thread_local) => match heap.attribute_of(
                        thread_local,
                        "num_401_calls"@,
                    ) {
                        None => Err(DigestStop::Failed(Failure::Attribute)),
                        Some(calls) => match count_of(heap, calls) {
                            None => Err(DigestStop::Fallback),
                            Some(calls) => Ok(calls),
                        },
                    },
                },
            },
        }
    }
}

/// Reads how many challenges in a row a thread has met.
pub fn digest_401_trial(heap: &Heap, state: &AuthState, subject: usize, response: usize) -> (calls:
    Result<u32, DigestStop>)
    ensures
        calls == digest_401_input(*heap, *state, subject, response),
{
    match digest_401_is_pristine(heap, state, subject, response) {
        Ok(true) => {},
        _ => {
            return Err(DigestStop::Fallback);
        },
    }
    let status = match heap.attribute(response, "status_code") {
        Some(status) => status,
        None => {
            return Err(DigestStop::Failed(Failure::Attribute));
        },
    };
    match check_challenge_status(heap, status) {
        Err(failure) => {
            return Err(DigestStop::Failed(failure));
        },
        Ok(false) => {
            return Err(DigestStop::Fallback);
        },
        Ok(true) => {},
    }
    let thread_local = match heap.attribute(subject, "_thread_local") {
        Some(thread_local) => thread_local,
        None => {
            return Err(DigestStop::Failed(Failure::Attribute));
        },
    };
    match heap.attribute(thread_local, "num_401_calls") {
        None => Err(DigestStop::Failed(Failure::Attribute)),
        Some(calls) => match count_value(heap, calls) {
            None => Err(DigestStop::Fallback),
            Some(calls) => Ok(calls),
        },
    }
}

/// What the building of a digest header does next.
#[derive(Clone, Copy, Debug, PartialEq, Eq, Structural)]
pub enum HeaderCall {
    /// Plan the answer to the challenge.
    Prepare,
    /// Write back how often the nonce was answered.
    StoreCount,
    /// Ask Python for the time and for random bytes, and finish the plan.
    Work,
    /// Write back the nonce that was answered.
    StoreNonce,
    /// Return the header.
    Return,
    /// Return `None`.
    ReturnNone,
    /// Raise what the work came to.
    Raise(DigestResult),
    /// The error goes on.
    RaiseCurrent,
}

/// What happened.
#[derive(Clone, Copy, Debug, PartialEq, Eq, Structural)]
pub enum HeaderEvent {
    /// Whether the challenge can be answered.
    Planned(bool),
    Done,
    Finished(DigestResult),
    Raised,
}

/// What the building of a digest header does after something happened. One that
/// has ended stays as it is.
pub open spec fn next_header(call: HeaderCall, event: HeaderEvent) -> HeaderCall {
    match (call, event) {
        (HeaderCall::Return, _) => call,
        (HeaderCall::ReturnNone, _) => call,
        (HeaderCall::Raise(_), _) => call,
        (HeaderCall::Prepare, HeaderEvent::Planned(planned)) => if planned {
            HeaderCall::StoreCount
        } else {
            HeaderCall::ReturnNone
        },
        (HeaderCall::StoreCount, HeaderEvent::Done) => HeaderCall::Work,
        (HeaderCall::Work, HeaderEvent::Finished(result)) => match result {
            DigestResult::Header => HeaderCall::StoreNonce,
            DigestResult::NoHeader => HeaderCall::ReturnNone,
            _ => HeaderCall::Raise(result),
        },
        (HeaderCall::StoreNonce, HeaderEvent::Done) => HeaderCall::Return,
        _ => HeaderCall::RaiseCurrent,
    }
}

/// Goes on with the building of a digest header after something happened.
pub fn build_digest_header(call: HeaderCall, event: HeaderEvent) -> (next: HeaderCall)
    ensures
        next == next_header(call, event),
{
    match (call, event) {
        (HeaderCall::Return, _) => call,
        (HeaderCall::ReturnNone, _) => call,
        (HeaderCall::Raise(_), _) => call,
        (HeaderCall::Prepare, HeaderEvent::Planned(planned)) => if planned {
            HeaderCall::StoreCount
        } else {
            HeaderCall::ReturnNone
        },
        (HeaderCall::StoreCount, HeaderEvent::Done) => HeaderCall::Work,
        (HeaderCall::Work, HeaderEvent::Finished(result)) => match result {
            DigestResult::Header => HeaderCall::StoreNonce,
            DigestResult::NoHeader => HeaderCall::ReturnNone,
            _ => HeaderCall::Raise(result),
        },
        (HeaderCall::StoreNonce, HeaderEvent::Done) => HeaderCall::Return,
        _ => HeaderCall::RaiseCurrent,
    }
}

/// What the building of a digest header does after a list of events.
pub open spec fn header_after(events: Seq<HeaderEvent>) -> HeaderCall
    decreases events.len(),
{
    if events.len() == 0 {
        HeaderCall::Prepare
    } else {
        next_header(header_after(events.drop_last()), events.last())
    }
}

/// How often a nonce was answered is written back before Python is asked for
/// anything, so that it counts even where that fails; the nonce itself is
/// written back only once there is a header.
pub proof fn law_count_is_stored_before_the_work(events: Seq<HeaderEvent>)
    ensures
        header_after(events) is Prepare ==> events.len() == 0,
        header_after(events) is StoreCount ==> events == seq![HeaderEvent::Planned(true)],
        header_after(events) is Work ==> events == seq![
            HeaderEvent::Planned(true),
            HeaderEvent::Done,
        ],
        header_after(events) is StoreNonce ==> events == seq![
            HeaderEvent::Planned(true),
            HeaderEvent::Done,
            HeaderEvent::Finished(DigestResult::Header),
        ],
        header_after(events) matches HeaderCall::Raise(result) ==> events.len() >= 3
            && events.take(2) == seq![HeaderEvent::Planned(true), HeaderEvent::Done] && events[2]
            == HeaderEvent::Finished(result),
        header_after(events) is Return ==> events.len() >= 4 && events.take(4) == seq![
            HeaderEvent::Planned(true),
            HeaderEvent::Done,
            HeaderEvent::Finished(DigestResult::Header),
            HeaderEvent::Done,
        ],
    decreases events.len(),
{
    if events.len() > 0 {
        let before = events.drop_last();
        law_count_is_stored_before_the_work(before);
        assert(events =~= before.push(events.last()));
        if before.len() >= 2 {
            assert(events.take(2) =~= before.take(2));
        }
        if before.len() >= 4 {
            assert(events.take(4) =~= before.take(4));
        }
        if events.len() == 4 {
            assert(events.take(4) =~= events);
        }
        if before.len() == 2 {
            assert(before.take(2) =~= before);
        }
    }
}

/// What is native is unchanged: an input is read only from an object of exactly
/// the digest class that was met first.
pub proof fn law_foreign_digest_objects_fall_back(
    heap: Heap,
    state: AuthState,
    subject: usize,
    operation: Seq<char>,
    arguments: Seq<usize>,
    response: usize,
)
    requires
        !heap.is_exactly(subject, state.digest_type),
    ensures
        digest_input_of(heap, state, subject, operation, arguments) == Err::<
            DigestInputView,
            DigestStop,
        >(DigestStop::Fallback),
        digest_401_input(heap, state, subject, response) == Err::<u32, DigestStop>(
            DigestStop::Fallback,
        ),
{
}

/// Each remembered object of authentication is the one at the place that its name
/// tells.
pub proof fn law_auth_objects_are_at_their_places(heap: Heap, state: AuthState)
    requires
        auth_state_of(heap) == Ok::<AuthState, Failure>(state),
    ensures
        heap.module_of("requests.auth"@) == Some(state.module),
        object_at(heap, class_below("requests.auth"@, "HTTPBasicAuth"@)) == Ok::<usize, Failure>(
            state.basic_type,
        ),
        object_at(heap, class_below("requests.auth"@, "HTTPProxyAuth"@)) == Ok::<usize, Failure>(
            state.proxy_type,
        ),
        object_at(heap, class_below("requests.auth"@, "HTTPDigestAuth"@)) == Ok::<usize, Failure>(
            state.digest_type,
        ),
        object_at(heap, class_below("requests.models"@, "Response"@)) == Ok::<usize, Failure>(
            state.response_type,
        ),
        object_at(heap, class_below("requests.models"@, "PreparedRequest"@)) == Ok::<
            usize,
            Failure,
        >(state.prepared_request_type),
        object_at(heap, class_below("requests.cookies"@, "RequestsCookieJar"@)) == Ok::<
            usize,
            Failure,
        >(state.cookie_jar_type),
        object_at(heap, class_below("requests.structures"@, "CaseInsensitiveDict"@)) == Ok::<
            usize,
            Failure,
        >(state.header_type),
        nested_is(heap, state.digest_type, "handle_401"@, "__code__"@, state.digest_401_code)
            == Ok::<bool, Failure>(true),
        nested_is(
            heap,
            state.digest_type,
            "build_digest_header"@,
            "__code__"@,
            state.digest_build_code,
        ) == Ok::<bool, Failure>(true),
{
    let landmarks = auth_landmarks();
    let objects = objects_at(heap, landmarks)->Ok_0;
    crate::landmarks::law_objects_are_those_at_their_landmarks(heap, landmarks, objects);
    assert(object_at(heap, landmarks[0]) is Ok && object_at(heap, landmarks[4]) is Ok && object_at(
        heap,
        landmarks[5],
    ) is Ok && object_at(heap, landmarks[6]) is Ok && object_at(heap, landmarks[17]) is Ok
        && object_at(heap, landmarks[18]) is Ok && object_at(heap, landmarks[19]) is Ok
        && object_at(heap, landmarks[20]) is Ok && object_at(heap, landmarks[29]) is Ok
        && object_at(heap, landmarks[30]) is Ok);
}

/// Authentication that was just met is what it was met as: nothing that basic
/// authentication, digest authentication or a resent request leans on counts as
/// changed, and neither do the classes that apply credentials.
pub proof fn law_fresh_authentication_is_pristine(heap: Heap, state: AuthState, proxy: bool)
    requires
        auth_state_of(heap) == Ok::<AuthState, Failure>(state),
    ensures
        expected(heap, basic_expectations(state)) == Ok::<bool, Failure>(true),
        expected(heap, digest_expectations(state)) == Ok::<bool, Failure>(true),
        expected(heap, resend_expectations(state)) == Ok::<bool, Failure>(true),
        apply_pristine(heap, state, proxy) == Ok::<bool, Failure>(true),
        resend_code_pristine(heap, state) == Ok::<bool, Failure>(true),
{
    let landmarks = auth_landmarks();
    let objects = objects_at(heap, landmarks)->Ok_0;
    crate::landmarks::law_objects_are_those_at_their_landmarks(heap, landmarks, objects);
    law_auth_objects_are_at_their_places(heap, state);
    assert(object_at(heap, landmarks[1]) is Ok && object_at(heap, landmarks[2]) is Ok && object_at(
        heap,
        landmarks[3],
    ) is Ok && object_at(heap, landmarks[4]) is Ok && object_at(heap, landmarks[5]) is Ok
        && object_at(heap, landmarks[6]) is Ok && object_at(heap, landmarks[9]) is Ok && object_at(
        heap,
        landmarks[10],
    ) is Ok && object_at(heap, landmarks[11]) is Ok && object_at(heap, landmarks[12]) is Ok
        && object_at(heap, landmarks[13]) is Ok && object_at(heap, landmarks[17]) is Ok
        && object_at(heap, landmarks[18]) is Ok);
    assert(object_at(heap, landmarks[21]) is Ok && object_at(heap, landmarks[22]) is Ok
        && object_at(heap, landmarks[23]) is Ok && object_at(heap, landmarks[24]) is Ok
        && object_at(heap, landmarks[25]) is Ok && object_at(heap, landmarks[26]) is Ok
        && object_at(heap, landmarks[27]) is Ok && object_at(heap, landmarks[28]) is Ok
        && object_at(heap, landmarks[31]) is Ok && object_at(heap, landmarks[32]) is Ok
        && object_at(heap, landmarks[33]) is Ok && object_at(heap, landmarks[34]) is Ok
        && object_at(heap, landmarks[35]) is Ok && object_at(heap, landmarks[36]) is Ok
        && object_at(heap, landmarks[37]) is Ok && object_at(heap, landmarks[38]) is Ok
        && object_at(heap, landmarks[39]) is Ok && object_at(heap, landmarks[40]) is Ok);
    crate::landmarks::law_expected_means_each(heap, basic_expectations(state));
    crate::landmarks::law_expected_means_each(heap, digest_expectations(state));
    crate::landmarks::law_expected_means_each(heap, resend_expectations(state));
}

/// Whether an attribute is an object.
pub open spec fn stays(heap: Heap, object: usize, name: Seq<char>, value: usize) -> bool {
    heap.attribute_of(object, name) == Some(value)
}

/// Authentication is native only as long as each function and module that it
/// leans on is the one that was met first: one that was replaced falls back.
pub proof fn law_authentication_leans_on_each(heap: Heap, state: AuthState)
    ensures
        holds(expected(heap, basic_expectations(state))) <==> {
            &&& stays(heap, state.module, "_basic_auth_str"@, state.basic_function)
            &&& stays(heap, state.basic_function, "__code__"@, state.basic_code)
            &&& stays(heap, state.module, "basestring"@, state.basestring)
            &&& stays(heap, state.module, "str"@, state.compat_str)
            &&& stays(heap, state.module, "b64encode"@, state.b64encode)
            &&& stays(heap, state.module, "to_native_string"@, state.to_native_string)
            &&& stays(heap, state.module, "warnings"@, state.warnings)
            &&& stays(heap, state.to_native_string, "__code__"@, state.to_native_string_code)
            &&& stays(heap, state.warnings, "warn"@, state.warn)
        },
        holds(expected(heap, digest_expectations(state))) <==> {
            &&& stays(heap, state.module, "hashlib"@, state.hashlib)
            &&& stays(heap, state.module, "os"@, state.os)
            &&& stays(heap, state.module, "time"@, state.time)
            &&& stays(heap, state.module, "urlparse"@, state.urlparse)
            &&& stays(heap, state.module, "str"@, state.compat_str)
            &&& stays(heap, state.hashlib, "md5"@, state.md5)
            &&& stays(heap, state.hashlib, "sha1"@, state.sha1)
            &&& stays(heap, state.hashlib, "sha256"@, state.sha256)
            &&& stays(heap, state.hashlib, "sha512"@, state.sha512)
        },
        holds(expected(heap, resend_expectations(state))) <==> {
            &&& stays(heap, state.module, "extract_cookies_to_jar"@, state.extract_cookies_to_jar)
            &&& stays(heap, state.module, "parse_dict_header"@, state.parse_dict_header)
            &&& stays(heap, state.module, "re"@, state.re)
            &&& stays(heap, state.response_type, "content"@, state.response_content)
            &&& stays(heap, state.response_type, "close"@, state.response_close)
            &&& stays(heap, state.prepared_request_type, "copy"@, state.prepared_copy)
            &&& stays(
                heap,
                state.prepared_request_type,
                "prepare_cookies"@,
                state.prepared_cookies,
            )
        },
{
    let basic = basic_expectations(state);
    let digest = digest_expectations(state);
    let resend = resend_expectations(state);
    crate::landmarks::law_expected_means_each(heap, basic);
    crate::landmarks::law_expected_means_each(heap, digest);
    crate::landmarks::law_expected_means_each(heap, resend);
    assert(basic[0].value == state.basic_function && basic[1].value == state.basic_code
        && basic[2].value == state.basestring && basic[3].value == state.compat_str
        && basic[4].value == state.b64encode && basic[5].value == state.to_native_string
        && basic[6].value == state.warnings && basic[7].value == state.to_native_string_code
        && basic[8].value == state.warn);
    assert(digest[0].value == state.hashlib && digest[1].value == state.os && digest[2].value
        == state.time && digest[3].value == state.urlparse && digest[4].value == state.compat_str
        && digest[5].value == state.md5 && digest[6].value == state.sha1 && digest[7].value
        == state.sha256 && digest[8].value == state.sha512);
    assert(resend[0].value == state.extract_cookies_to_jar && resend[1].value
        == state.parse_dict_header && resend[2].value == state.re && resend[3].value
        == state.response_content && resend[4].value == state.response_close && resend[5].value
        == state.prepared_copy && resend[6].value == state.prepared_cookies);
}

/// Basic authentication is native exactly where all that it leans on is unchanged
/// and neither credential is of a class derived from text or bytes; to apply it,
/// the class has to be the one met first as well.
pub proof fn law_basic_authentication_is_native_where_nothing_changed(
    heap: Heap,
    state: AuthState,
    username: usize,
    password: usize,
    proxy: bool,
)
    ensures
        basic_plan(heap, state, username, password) is Native <==> holds(
            expected(heap, basic_expectations(state)),
        ) && !subclasses_text_or_bytes(heap, username) && !subclasses_text_or_bytes(
            heap,
            password,
        ),
        apply_plan(heap, state, username, password, proxy) is Native <==> holds(
            apply_pristine(heap, state, proxy),
        ) && basic_plan(heap, state, username, password) is Native,
        subclasses_text_or_bytes(heap, username) ==> (heap.at(username) matches Some(found)
            && found.class != heap.intrinsics.text && found.class != heap.intrinsics.bytes && (
        heap.mro_of(found.class).contains(heap.intrinsics.text) || heap.mro_of(
            found.class,
        ).contains(heap.intrinsics.bytes))),
        holds(apply_pristine(heap, state, true)) ==> heap.attribute_of(
            state.module,
            "HTTPProxyAuth"@,
        ) == Some(state.proxy_type) && stays(heap, state.proxy_type, "__call__"@, state.proxy_call),
        holds(apply_pristine(heap, state, false)) ==> heap.attribute_of(
            state.module,
            "HTTPBasicAuth"@,
        ) == Some(state.basic_type) && stays(heap, state.basic_type, "__call__"@, state.basic_call),
        basic_header(true) == "Proxy-Authorization"@ && basic_header(false) == "Authorization"@,
{
}

/// A digest object is pristine exactly where it is of the class met first, all
/// that digest authentication leans on is unchanged, and so is the code that
/// builds the header.
pub proof fn law_pristine_digest_objects(
    heap: Heap,
    state: AuthState,
    subject: usize,
    response: usize,
)
    ensures
        holds(digest_pristine(heap, state, subject)) <==> heap.is_exactly(
            subject,
            state.digest_type,
        ) && holds(expected(heap, digest_expectations(state))) && (heap.attribute_of(
            state.digest_type,
            "build_digest_header"@,
        ) matches Some(function) && heap.attribute_of(function, "__code__"@) == Some(
            state.digest_build_code,
        )),
        holds(digest_401_pristine(heap, state, subject, response)) <==> {
            &&& holds(digest_pristine(heap, state, subject))
            &&& heap.is_exactly(response, state.response_type)
            &&& heap.attribute_of(state.module, "HTTPDigestAuth"@) matches Some(class)
                && heap.attribute_of(class, "handle_401"@) matches Some(function)
                && heap.attribute_of(function, "__code__"@) == Some(state.digest_401_code)
            &&& holds(expected(heap, resend_expectations(state)))
            &&& heap.attribute_of(response, "headers"@) matches Some(headers) && heap.is_exactly(
                headers,
                state.header_type,
            )
            &&& heap.attribute_of(response, "request"@) matches Some(request) && heap.is_exactly(
                request,
                state.prepared_request_type,
            ) && (heap.attribute_of(request, "headers"@) matches Some(headers) && heap.is_exactly(
                headers,
                state.header_type,
            )) && (heap.attribute_of(request, "_cookies"@) matches Some(cookies)
                && heap.is_exactly(cookies, state.cookie_jar_type))
        },
{
}

/// A challenged response is answered natively exactly where everything is
/// pristine and its status is the exact integer that challenges. How often the
/// thread was challenged is its own count.
pub proof fn law_only_challenges_are_answered(
    heap: Heap,
    state: AuthState,
    subject: usize,
    response: usize,
    calls: u32,
)
    ensures
        digest_401_input(heap, state, subject, response) == Ok::<u32, DigestStop>(calls) <==> {
            &&& holds(digest_401_pristine(heap, state, subject, response))
            &&& heap.attribute_of(response, "status_code"@) matches Some(status)
                && heap.is_exactly(status, heap.intrinsics.int) && heap.int_of(status) == Some(
                401int,
            )
            &&& heap.attribute_of(subject, "_thread_local"@) matches Some(thread_local)
                && heap.attribute_of(thread_local, "num_401_calls"@) matches Some(count)
                && heap.index_of(count) == Some(calls as int)
        },
{
}

/// What the building of a digest header meets.
#[derive(Clone, Copy, Debug, PartialEq, Eq, Structural)]
pub struct HeaderFacts {
    /// The challenge can be answered.
    pub planned: bool,
    /// What the work comes to.
    pub result: DigestResult,
}

/// What happens when the building of a digest header does something.
pub open spec fn header_event(facts: HeaderFacts, call: HeaderCall) -> HeaderEvent {
    match call {
        HeaderCall::Prepare => HeaderEvent::Planned(facts.planned),
        HeaderCall::Work => HeaderEvent::Finished(facts.result),
        _ => HeaderEvent::Done,
    }
}

/// The steps that follow a step of the building of a digest header.
pub open spec fn header_course(facts: HeaderFacts, call: HeaderCall, limit: nat) -> Seq<HeaderCall>
    decreases limit,
{
    if limit == 0 || call is Return || call is ReturnNone || call is Raise || call
        is RaiseCurrent {
        seq![call]
    } else {
        seq![call] + header_course(
            facts,
            next_header(call, header_event(facts, call)),
            (limit - 1) as nat,
        )
    }
}

/// A challenge that cannot be answered gives `None` and stores nothing. One that
/// can is counted, then worked on; a header is returned once its nonce is stored,
/// no header gives `None`, and what went wrong is raised. An error of Python's own
/// code ends the building.
pub proof fn law_headers_take_their_course(facts: HeaderFacts, limit: nat)
    requires
        limit >= 4,
    ensures
        header_course(facts, HeaderCall::Prepare, limit) == (if !facts.planned {
            seq![HeaderCall::Prepare, HeaderCall::ReturnNone]
        } else if facts.result is Header {
            seq![
                HeaderCall::Prepare,
                HeaderCall::StoreCount,
                HeaderCall::Work,
                HeaderCall::StoreNonce,
                HeaderCall::Return,
            ]
        } else if facts.result is NoHeader {
            seq![
                HeaderCall::Prepare,
                HeaderCall::StoreCount,
                HeaderCall::Work,
                HeaderCall::ReturnNone,
            ]
        } else {
            seq![
                HeaderCall::Prepare,
                HeaderCall::StoreCount,
                HeaderCall::Work,
                HeaderCall::Raise(facts.result),
            ]
        }),
        forall|call: HeaderCall|
            !(call is Return || call is ReturnNone || call is Raise) ==> #[trigger] next_header(
                call,
                HeaderEvent::Raised,
            ) is RaiseCurrent,
{
    reveal_with_fuel(header_course, 5);
    let course = header_course(facts, HeaderCall::Prepare, limit);
    if !facts.planned {
        assert(course =~= seq![HeaderCall::Prepare, HeaderCall::ReturnNone]);
    } else if facts.result is Header {
        assert(course =~= seq![
            HeaderCall::Prepare,
            HeaderCall::StoreCount,
            HeaderCall::Work,
            HeaderCall::StoreNonce,
            HeaderCall::Return,
        ]);
    } else if facts.result is NoHeader {
        assert(course =~= seq![
            HeaderCall::Prepare,
            HeaderCall::StoreCount,
            HeaderCall::Work,
            HeaderCall::ReturnNone,
        ]);
    } else {
        assert(course =~= seq![
            HeaderCall::Prepare,
            HeaderCall::StoreCount,
            HeaderCall::Work,
            HeaderCall::Raise(facts.result),
        ]);
    }
}

/// The first error of an action is raised, whatever the worker came to. Without
/// one, a finished worker gives its header, or none.
pub proof fn law_results_of_digest_workers(outcome: DigestOutcome, error: usize, has_header: bool)
    ensures
        digest_result(Some(error), outcome) == DigestResult::Raise(error),
        !(digest_result(None, outcome) is Raise),
        digest_result(None, outcome) is Header <==> outcome == (DigestOutcome::Complete {
            has_header: true,
        }),
        digest_result(None, outcome) is NoHeader <==> outcome == (DigestOutcome::Complete {
            has_header: false,
        }),
        digest_result(None, outcome) is LostError <==> outcome is HandlerFailed,
        outcome matches DigestOutcome::BridgeClosed(closed) ==> digest_result(None, outcome)
            == DigestResult::Closed(closed),
{
}

/// A credential that is neither text nor bytes is warned about, then turned into
/// a text, and that text is encoded. What is still no byte string at the end is
/// refused.
pub proof fn law_other_credentials_are_converted(kind: CredentialKind)
    ensures
        credential_first(false, kind) is Warn,
        credential_after(CredentialStep::Warn, kind) is Convert,
        credential_after(CredentialStep::Convert, CredentialKind::Text) is Encode,
        credential_after(CredentialStep::Convert, CredentialKind::Bytes) is Take,
        credential_after(CredentialStep::Convert, CredentialKind::Other) is Refuse,
        credential_after(CredentialStep::Encode, kind) is Take <==> kind is Bytes,
        credential_after(CredentialStep::Encode, kind) is Refuse <==> !(kind is Bytes),
        credential_first(true, CredentialKind::Text) is Encode,
        credential_first(true, CredentialKind::Bytes) is Take,
        credential_first(true, CredentialKind::Other) is Refuse,
{
}

/// Each reason to stop has its own words.
pub proof fn law_words_of_digest_stop()
    ensures
        DigestStop::MissingRealm.words() == Some("realm"@),
        DigestStop::MissingNonce.words() == Some("nonce"@),
        DigestStop::NotText.words() == Some("digest trial requires exact string challenge values"@),
{
}

/// Each failed result has its own words.
pub proof fn law_words_of_digest_result()
    ensures
        DigestResult::LostError.words() == Some("digest callback failed without preserving its Python exception"@),
{
}

/// The warning says of which credential it is, and shows what it is given; the two
/// warnings say the same else.
pub proof fn law_warnings_say_which_credential(shown: Seq<char>)
    ensures
        credential_warning(true, shown).take(20) == "Non-string usernames"@,
        credential_warning(false, shown).take(20) == "Non-string passwords"@,
        credential_warning(true, shown).skip(20) == credential_warning(false, shown).skip(20),
        credential_warning(true, shown).len() > 20 + shown.len(),
{
    reveal_strlit("Non-string usernames");
    reveal_strlit("Non-string passwords");
    reveal_strlit(
        "Non-string usernames will no longer be supported in Requests 3.0.0. Please convert the object you've passed in (",
    );
    reveal_strlit(
        "Non-string passwords will no longer be supported in Requests 3.0.0. Please convert the object you've passed in (",
    );
    reveal_strlit(") to a string or bytes object in the near future to avoid problems.");
    let first =
        "Non-string usernames will no longer be supported in Requests 3.0.0. Please convert the object you've passed in ("@;
    let second =
        "Non-string passwords will no longer be supported in Requests 3.0.0. Please convert the object you've passed in ("@;
    assert(first.take(20) =~= "Non-string usernames"@);
    assert(second.take(20) =~= "Non-string passwords"@);
    assert(first.skip(20) =~= second.skip(20));
    let end = ") to a string or bytes object in the near future to avoid problems."@;
    assert(credential_warning(true, shown).take(20) =~= first.take(20));
    assert(credential_warning(false, shown).take(20) =~= second.take(20));
    assert(credential_warning(true, shown).skip(20) =~= first.skip(20) + shown + end);
    assert(credential_warning(false, shown).skip(20) =~= second.skip(20) + shown + end);
}

} // verus!
